[package]
name = "promptforge"
version = "0.1.0"
edition = "2021"
publish = false

[dependencies]
handlebars = "*"
messageforge = "*"
serde = { version = "*", features = ["derive"] }
serde_json = "*"
toml = "*"
tokio = { version = "*", features = ["fs", "rt", "macros"] }
