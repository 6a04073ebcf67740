[package]
name = "rust-breakout"
version = "0.1.0"
edition = "2021"
publish = false

[dependencies]
fixed = "1"
cordic = "0.1"
wasm-bindgen = "0.2"
web-sys = { version = "0.3", features = ["CanvasRenderingContext2d", "HtmlCanvasElement", "Window", "Document", "Element", "MouseEvent", "KeyboardEvent", "Performance", "DomRect", "CanvasGradient", "EventTarget", "HtmlElement", "Event"] }
