[package]
name = "iroh_common"
version = "0.1.0"
edition = "2021"
publish = false

[dependencies]
bytes = "1"
http = "0.2"
multer = "2"
axum = { version = "0.6", features = ["multipart"] }
hyper = "0.14"
tokio = "1"
async-trait = "0.1"
serde = { version = "1", features = ["derive"] }
serde_json = "1"
config = { version = "0.13", default-features = false }
