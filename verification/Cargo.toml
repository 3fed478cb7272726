[package]
name = "pi-mesh"
version = "0.1.0"
edition = "2021"
publish = false

[dependencies]
axum = "0.8"
hostname = "0.4"
reqwest = { version = "0.12", default-features = false, features = ["json"] }
serde = { version = "1", features = ["derive"] }
serde_json = "1"
tokio = { version = "1", features = ["macros", "net", "process", "rt-multi-thread", "sync", "time"] }
uuid = { version = "1", features = ["v4"] }
