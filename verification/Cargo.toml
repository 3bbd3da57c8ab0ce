[package]
name = "xtb"
version = "0.1.0"
edition = "2021"
publish = false

[dependencies]
chrono = "*"
tokio = { version = "*", features = ["full"] }
tokio-rustls = "*"
webpki-roots = "*"
cliclack = "*"
pbkdf2 = { version = "*", features = ["simple"] }
rand_core = { version = "0.6", features = ["std"] }

[dev-dependencies]
serde_json = "*"
