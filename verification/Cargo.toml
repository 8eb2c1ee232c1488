[package]
name = "urllb"
version = "0.1.0"
edition = "2021"
publish = false

[dependencies]
rand = "0.8"
nanoid = "0.4"
mime_guess = "2"
axum = "0.6"
diesel = { version = "2.0", features = ["postgres"] }
diesel-async = { version = "0.2", features = ["postgres"] }
diesel_migrations = "2.0"
include_dir = "0.7"
serde = { version = "1", features = ["derive"] }
tokio = { version = "1", features = ["full"] }
tower-http = { version = "0.4", features = ["cors"] }
tracing = "0.1"
tracing-subscriber = "0.3"
wasm-logger = "0.2"
yew = "0.19"
yew-router = "0.16"
