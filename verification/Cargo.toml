[package]
name = "myconfig"
version = "0.1.0"
edition = "2021"
publish = false

[dependencies]
anyhow = "1"
async-std = { version = "1", features = ["attributes"] }
directories = "*"
log = "0.4"
serde = { version = "1", features = ["derive"] }
serde_yaml = "*"
simplelog = "*"
structopt = "0.3"
thiserror = "1"
