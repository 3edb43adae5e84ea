[package]
name = "project_gen"
version = "0.1.0"
edition = "2021"
publish = false

[dependencies]
failure = "0.1"
quick-xml = "0.31"
serde = { version = "1", features = ["derive"] }
serde_yaml = "0.9"
