[package]
name = "markdown_editor"
version = "0.1.0"
edition = "2021"
publish = false

[dependencies]
pulldown-cmark = "=0.13.4"
console_error_panic_hook = "0.1"
gloo-file = "0.3"
gloo-storage = "0.3"
gloo-timers = "0.3"
js-sys = "0.3"
wasm-bindgen = "0.2"
yew = { version = "0.21", features = ["csr"] }
yew-hooks = "0.3"

[dependencies.web-sys]
version = "0.3"
features = [
    "Blob",
    "Document",
    "DomTokenList",
    "Element",
    "Event",
    "EventTarget",
    "File",
    "FileList",
    "HtmlAnchorElement",
    "HtmlElement",
    "HtmlInputElement",
    "HtmlTextAreaElement",
    "Url",
    "Window",
]
