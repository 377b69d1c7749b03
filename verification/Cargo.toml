[package]
name = "airquality_mtl"
version = "0.1.0"
edition = "2021"
publish = false

[dependencies]
chrono = "0.4"
chrono-tz = "0.10"
serde = { version = "1", features = ["derive"] }
leptos = { version = "0.7", default-features = false, features = ["csr"] }
wasm-bindgen = "0.2"
wasm-bindgen-futures = "0.4"
js-sys = "0.3"
gloo-net = { version = "0.6", default-features = false, features = ["http", "json"] }
console_error_panic_hook = "0.1"
web-sys = { version = "0.3", features = ["Window", "Document", "Storage", "Navigator", "Location", "History", "Element", "HtmlElement", "Node", "NodeList", "DomRect", "HtmlCanvasElement", "CanvasRenderingContext2d", "ImageData", "Blob", "BlobPropertyBag", "Url", "HtmlAnchorElement", "HtmlImageElement", "XmlSerializer", "Clipboard", "ClipboardItem", "RequestCache", "console"] }
