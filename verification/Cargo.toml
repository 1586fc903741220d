[package]
name = "analysis_backend"
version = "0.1.0"
edition = "2021"
publish = false

[dependencies]
aes = "=0.7.5"
base64 = "=0.21.7"
block-modes = "=0.8.1"
chrono = { version = "=0.4.45", features = ["serde"] }
dashmap = "=5.5.3"
lazy_static = "=1.5.1"
num_cpus = "=1.17.0"
rand = "=0.8.8"
rayon = "=1.12.0"
regex = "=1.13.1"
serde = { version = "=1.0.229", features = ["derive"] }
serde_json = "=1.0.154"
sha2 = "=0.10.9"
unicode-segmentation = "=1.13.3"
whatlang = "=0.16.4"
