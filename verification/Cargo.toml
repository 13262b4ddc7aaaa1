[package]
name = "folco_core"
version = "0.1.0"
edition = "2021"
publish = false

[dependencies]
directories = "*"
image = { version = "*", default-features = false, features = ["png"] }
tokio = { version = "*", default-features = false, features = ["sync"] }

[dev-dependencies]
serde_json = "*"
