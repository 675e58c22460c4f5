[package]
name = "rsweb"
version = "0.8.9"
edition = "2021"
publish = false

[dependencies]
brotli = "*"
btui = "*"
chrono = "0.4"
flate2 = "1"
openssl = "0.10"
serde = { version = "1", features = ["derive"] }
serde_derive = "1"
toml = "*"
wildmatch = "2"
