[package]
name = "supabase_middleware"
version = "0.1.0"
edition = "2021"
publish = false

[dependencies]
axum = { version = "0.7", default-features = false }
crossbeam = "0.8"
dioxus = { version = "0.6", default-features = false, features = ["hooks", "launch", "macro", "signals"] }
futures = "0.3"
gloo-timers = { version = "0.3", features = ["futures"] }
jsonwebtoken = { version = "9", default-features = false }
reqwest = { version = "0.12", default-features = false, features = ["json"] }
reqwest-websocket = "0.4"
serde = { version = "1", features = ["derive"] }
serde_json = { version = "1", features = ["raw_value"] }
tower = { version = "0.5", default-features = false }
tracing = "0.1"
uuid = "1"
