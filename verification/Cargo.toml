[package]
name = "holter_host"
version = "0.1.0"
edition = "2021"
publish = false

[dependencies]
syn = { version = "=3.0.9", features = ["full"] }
serde = { version = "=1.0.229", features = ["derive"] }
serde_json = "=1.0.154"
log = "=0.4.34"
wasm-bindgen = { version = "=0.2.129", features = ["serde-serialize"] }
wasm-bindgen-futures = "=0.4.79"
js-sys = "=0.3.106"
web-sys = { version = "=0.3.106", features = ["Window", "Document", "Element", "HtmlElement", "HtmlCanvasElement", "WebGlRenderingContext", "WebGlProgram", "WebGlShader", "WebGlUniformLocation", "WebGlBuffer", "DomException"] }
wasm-logger = "=0.2.0"
gloo-timers = { version = "=0.2.6", features = ["futures"] }
gloo-file = { version = "=0.1.0", features = ["futures"] }
