[package]
name = "mikaana"
version = "0.1.0"
edition = "2021"
publish = false

[dependencies]
ammonia = "=4.2.4"
jsonwebtoken = "=9.3.1"
urlencoding = "=2.1.3"
serde = { version = "=1.0.229", features = ["derive"] }
serde_json = "=1.0.154"
axum = "=0.8.9"
tokio = { version = "=1.54.1", features = ["full"] }
tower-http = { version = "=0.6.11", features = ["cors"] }
rusqlite = { version = "=0.32.1", features = ["bundled"] }
r2d2 = "=0.8.10"
r2d2_sqlite = "=0.25.0"
reqwest = { version = "=0.12.28", features = ["json"] }
leptos = { version = "0.8", features = ["csr"] }
leptos_router = "0.8"
gloo-net = { version = "0.6", features = ["http"] }
web-sys = { version = "0.3", features = ["Window", "Document", "Element", "HtmlElement", "Storage", "Location", "History", "Url", "UrlSearchParams"] }
wasm-bindgen = "0.2"
wasm-bindgen-futures = "0.4"
console_error_panic_hook = "0.1"
