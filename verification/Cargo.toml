[package]
name = "greeniem"
version = "0.1.0"
edition = "2021"
publish = false

[dependencies]
dashmap = "6"
rand = "0.8"
axum = "0.7"
axum-extra = { version = "0.9", features = ["cookie"] }
bson = "2"
mongodb = "3"
chrono = "0.4"
time = "0.3"
futures-util = "0.3"
tokio = { version = "1", features = ["full"] }
tower-http = { version = "0.5", features = ["limit", "fs", "trace"] }
tracing = "0.1"
tracing-subscriber = { version = "0.3", features = ["env-filter"] }
dotenvy = "0.15"
serde = { version = "1", features = ["derive"] }
jsonwebtoken = "9"
argon2 = "0.5"
yew = { version = "0.21", features = ["csr"] }
yew-router = "0.18"
gloo-net = "0.5"
gloo-storage = "0.3"
web-sys = { version = "0.3", features = ["HtmlInputElement", "HtmlSelectElement", "HtmlTextAreaElement"] }
wasm-bindgen = "0.2"
wasm-bindgen-futures = "0.4"
js-sys = "0.3"
