[package]
name = "mflash_studio"
version = "0.1.0"
edition = "2021"
publish = false

[dependencies]
regex = "=1.13.1"
serde = { version = "=1.0.229", features = ["derive"] }
serde_json = { version = "=1.0.154", features = ["float_roundtrip"] }
toml = "=0.8.23"
serde_yml = "=0.0.12"
quick-xml = { version = "=0.37.5", features = ["serialize"] }
zip = { version = "=2.6.1", default-features = false, features = ["deflate"] }
image = { version = "=0.25.10", default-features = false, features = ["png", "jpeg", "gif"] }
eframe = { version = "=0.29.1", default-features = false, features = ["default_fonts", "glow", "x11"] }
rfd = "=0.15.4"
arboard = { version = "=3.7.0", default-features = false }
dirs = "=6.0.0"
