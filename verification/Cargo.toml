[package]
name = "yew_confetti"
version = "0.1.0"
edition = "2021"
publish = false

[dependencies]
js-sys = "*"
web-sys = { version = "*", features = ["Window", "Document", "HtmlCanvasElement", "CanvasRenderingContext2d", "MediaQueryList"] }
yew = { version = "*", features = ["csr"] }
