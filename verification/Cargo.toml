[package]
name = "blob_registry"
version = "0.1.0"
edition = "2021"
publish = false

[dependencies]
actix-rt = "*"
actix-web = "*"
async-trait = "*"
bytes = "*"
serde = { version = "*", features = ["derive"] }
uuid = { version = "*", features = ["v4"] }
