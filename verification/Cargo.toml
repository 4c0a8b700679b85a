[package]
name = "yunxi_agent"
version = "0.1.0"
edition = "2021"
publish = false

[dependencies]
base64 = "=0.22.1"
unicode-segmentation = "=1.13.3"
unicode-width = "=0.2.3"
serde = { version = "=1.0.229", features = ["derive"] }
serde_json = "=1.0.154"
reqwest = { version = "0.12", default-features = false, features = ["json"] }
async-trait = "0.1"
hound = "3.5"
crossterm = "0.28"
