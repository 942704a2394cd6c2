[package]
name = "pastex"
version = "0.1.0"
edition = "2021"
publish = false

[dependencies]
tinyrand = "=0.5.0"
serde_json = "=1.0.151"
warp = { version = "=0.4.3", features = ["compression", "server", "websocket"] }
handlebars = "=6.4.4"
futures-util = "=0.3.34"
axum = "=0.8.9"
tokio = { version = "=1.53.2", features = ["macros", "net", "rt-multi-thread"] }
tower-http = { version = "=0.7.1", features = ["fs"] }
