[package]
name = "vscode_generator"
version = "0.1.0"
edition = "2021"
publish = false

[dependencies]
chrono = "*"
md5 = "*"

[dev-dependencies]
serde_json = "*"
