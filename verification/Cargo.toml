[package]
name = "recipe_ratio"
version = "0.1.0"
edition = "2021"
publish = false

[dependencies]
fraction = "*"
serde = { version = "*", features = ["derive"] }
serde_json = "*"
