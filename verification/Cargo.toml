[package]
name = "assemble"
version = "0.1.0"
edition = "2021"
publish = false

[dependencies]
regex = "1"
iced-x86 = "1"
petgraph = "*"
serde = { version = "1", features = ["derive"] }
serde_json = "1"
clap = { version = "4", features = ["derive"] }
colored = "*"
tokio = { version = "1", features = ["rt-multi-thread", "macros", "io-std", "io-util"] }
reqwest = { version = "0.12", default-features = false, features = ["rustls-tls"] }
chrono = "0.4"
