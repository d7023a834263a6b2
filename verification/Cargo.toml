[package]
name = "dianju_wasm_seal"
version = "0.1.0"
edition = "2021"
publish = false

[dependencies]
base64 = "0.22"
hex = "0.4"
sha2 = "0.10"
md-5 = "0.10"
libsm = "0.6"
unicode-normalization = "0.1"
serde = { version = "1", features = ["derive"] }
serde_json = "1"
flate2 = "1"
zip = { version = "0.6", default-features = false, features = ["deflate"] }
quick-xml = "0.36"
lopdf = "0.34"
x509-parser = "0.16"
wasm-bindgen = "0.2"
wasm-bindgen-futures = "0.4"
js-sys = "0.3"
web-sys = { version = "0.3", features = ["console", "Window", "Document", "Element", "HtmlElement", "HtmlCanvasElement", "CanvasRenderingContext2d", "Blob", "BlobPropertyBag", "Url", "WebSocket", "ImageData", "Node"] }
futures = "0.3"
console_error_panic_hook = "0.1"
pdfium-render = { version = "0.8", default-features = false, features = ["thread_safe"] }
