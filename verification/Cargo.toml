[package]
name = "chorus"
version = "0.1.0"
edition = "2021"
publish = false

[dependencies]
blake3 = "=1.8.7"
openraft = "0.9"
sha2 = "=0.10.9"
ring = "=0.17.14"
zstd = "=0.13.4"
rustls-pemfile = "=2.2.0"
serde = { version = "=1.0.229", features = ["derive"] }
serde_json = "=1.0.154"
thiserror = "=2.0.21"
toml = "=0.8.23"
uuid = { version = "=1.29.0", features = ["v4"] }

[dev-dependencies]
rcgen = "=0.13.2"
