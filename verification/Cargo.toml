[package]
name = "galaxy_ops"
version = "0.1.0"
edition = "2021"
publish = false

[dependencies]
anyhow = "*"
async-trait = "*"
clap = { version = "4", features = ["derive"] }
derive-getters = "*"
dialoguer = "*"
getset = "*"
indexmap = "*"
orion_conf = "*"
orion-infra = "*"
orion-sec = "*"
orion-variate = "*"
serde = { version = "1", features = ["derive"] }
serde_json = "1"
serde_yaml = "*"
tokio = { version = "1", features = ["full"] }
