[package]
name = "tile_grid"
version = "0.1.0"
edition = "2021"
publish = false

[dependencies]
wasm-bindgen = "0.2"
js-sys = "0.3"
console_error_panic_hook = "0.1"
web-sys = { version = "0.3", features = ["Window", "Document", "Element", "EventTarget", "HtmlCanvasElement", "HtmlImageElement", "KeyboardEvent", "WebGlRenderingContext", "WebGlProgram", "WebGlShader", "WebGlBuffer", "WebGlTexture", "WebGlUniformLocation", "console"] }
