[package]
name = "inkhaven_language"
version = "0.1.0"
edition = "2021"
publish = false

[dependencies]
serde = { version = "=1.0.229", features = ["derive"] }
serde_json = "=1.0.154"
serde-hjson = "=1.1.0"
zip = "=9.2.2"
unicode-segmentation = "1"

[dev-dependencies]
serde-hjson = "=1.1.0"
