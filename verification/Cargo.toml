[package]
name = "yew-wysiwyg"
version = "0.1.0"
edition = "2021"
publish = false

[dependencies]
indexmap = "=2.14.2"
log = "=0.4.34"
pulldown-cmark = { version = "=0.13.5", default-features = false, features = ["html"] }
serde = { version = "=1.0.229", features = ["derive"] }
serde_json = "=1.0.154"
thiserror = "=1.0.69"
uuid = { version = "=1.29.0", features = ["v4", "serde"] }
wasm-bindgen = "=0.2.129"
wasm-logger = "=0.2.0"
web-sys = { version = "=0.3.106", features = ["CssStyleDeclaration", "DataTransfer", "DomTokenList", "DragEvent", "Element", "Event", "EventTarget", "HtmlElement", "HtmlInputElement", "HtmlSelectElement", "HtmlTextAreaElement", "InputEvent", "KeyboardEvent", "MouseEvent", "Storage", "Window"] }
yew = { version = "=0.21.0", features = ["csr"] }
