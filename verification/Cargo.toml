[package]
name = "deployer"
version = "0.1.0"
edition = "2021"
publish = false

[dependencies]
warp = "0.3"
tokio = { version = "1", features = ["full"] }
hmac = "0.12"
sha1 = "0.10"
hex = "0.4"
dotenv = "0.15"
bytes = "1"
