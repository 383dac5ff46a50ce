[package]
name = "fidius"
version = "0.1.0"
edition = "2021"
publish = false

[dependencies]
bincode = "=1.3.3"
serde = { version = "=1.0.229", features = ["derive"] }
sha2 = "=0.10.9"
toml = "=0.8.23"
tar = "=0.4.46"
bzip2 = "=0.4.4"
tempfile = "=3.27.0"
thiserror = "=1.0.69"
wit-bindgen = "=0.63.0"
syn = { version = "2", features = ["full"] }
quote = "1"
futures = "0.3"
