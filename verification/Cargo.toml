[package]
name = "baseline"
version = "0.1.0"
edition = "2021"
publish = false

[dependencies]
bytes = "1"
serde = { version = "1", features = ["derive"] }
serde_json = "1"
simd-json-derive = "*"
actix-web = { version = "4", default-features = false, features = ["macros"] }
actix-http = { version = "3", default-features = false }
actix-service = "2"
actix-files = "0.6"
axum = "*"
tokio = { version = "1", features = ["rt-multi-thread", "macros", "net", "time"] }
tower-http = { version = "*", features = ["fs"] }
rocket = "0.5"
