[package]
name = "nginx_stats"
version = "0.1.0"
edition = "2021"
publish = false

[dependencies]
async-trait = "*"
log = "*"
reqwest = { version = "*", default-features = false }
serde = { version = "*", features = ["derive"] }
typetag = "*"
