[package]
name = "shark_sim"
version = "0.1.0"
edition = "2021"
publish = false

[dependencies]
geo = "0.30"
rand = "0.9"
serde = { version = "1", features = ["derive"] }
serde_json = "1"
shapefile = "*"
tokio = { version = "1", features = ["full"] }
tokio-tungstenite = "*"
futures-util = "0.3"
