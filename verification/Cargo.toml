[package]
name = "walk_the_dog"
version = "0.1.0"
edition = "2021"
publish = false

[dependencies]
anyhow = "*"
async-trait = "*"
console_error_panic_hook = "*"
futures = "*"
rand = "0.8"
serde = { version = "*", features = ["derive"] }
wasm-bindgen = { version = "*", features = ["serde-serialize"] }
wasm-bindgen-futures = "*"
web-sys = { version = "*", features = ["console", "Window", "Document", "Element", "HtmlElement", "HtmlCanvasElement", "CanvasRenderingContext2d", "HtmlImageElement", "KeyboardEvent", "Response", "Performance"] }
