[package]
name = "port_sniffer"
version = "0.1.0"
edition = "2021"
publish = false

[dependencies]
bpaf = { version = "*", features = ["derive"] }
tokio = { version = "*", features = ["macros", "net", "rt-multi-thread"] }
