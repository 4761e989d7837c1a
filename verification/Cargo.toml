[package]
name = "project_assets"
version = "0.1.0"
edition = "2021"
publish = false

[dependencies]
ignore = "0.4"
path-slash = "0.1"
serde = { version = "1.0", features = ["derive"] }
