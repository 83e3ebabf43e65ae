[package]
name = "voxelruler"
version = "0.1.0"
edition = "2021"
publish = false

[dependencies]
regex = "=1.13.1"
url = "=2.5.8"
sha1 = "=0.10.7"
serde = { version = "=1.0.229", features = ["derive"] }
serde_json = "=1.0.154"
toml = "=0.8.23"
flate2 = "=1.1.10"
anyhow = "=1.0.104"
directories = "=5.0.1"
chrono = { version = "=0.4.45", default-features = false, features = ["clock", "std"] }
zip = { version = "=2.6.1", default-features = false, features = ["deflate"] }
reqwest = { version = "=0.12.28", default-features = false, features = ["blocking", "json", "rustls-tls", "multipart"] }
quick-xml = { version = "=0.37.5", features = ["serialize"] }
tokio = { version = "=1.54.1", features = ["rt-multi-thread", "net", "io-util", "macros"] }
oauth2 = "*"
minecraft-msa-auth = "*"
keyring = "*"
keyring-core = "*"
open = "*"
