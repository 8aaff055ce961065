[package]
name = "quill_core"
version = "0.1.0"
edition = "2021"
publish = false

[dependencies]
anyhow = "=1.0.104"
chrono = { version = "=0.4.45", default-features = false, features = ["now", "serde"] }
console_error_panic_hook = "0.1"
crossterm = "=0.28.1"
dirs = "=6.0.0"
js-sys = "=0.3.106"
ratatui = "=0.29.0"
ratzilla = "0.1"
serde = { version = "=1.0.229", features = ["derive"] }
serde_json = "=1.0.154"
uuid = { version = "=1.29.0", features = ["v4", "serde"] }
wasm-bindgen = "=0.2.129"
web-sys = { version = "=0.3.106", features = ["Blob", "BlobPropertyBag", "Document", "Element", "HtmlAnchorElement", "HtmlElement", "Storage", "Url", "Window", "console"] }
