[package]
name = "genpack"
version = "0.7.5"
edition = "2021"
publish = false

[dependencies]
url = "2"
anyhow = "1"
clap = { version = "4", features = ["derive"] }
reqwest = { version = "0.12", default-features = false, features = ["blocking", "rustls-tls"] }
serde = { version = "1", features = ["derive"] }
strum = { version = "0.26", features = ["derive"] }
tabled = "0.16"
terminal_size = "0.4"
