[package]
name = "pdf_content"
version = "0.1.0"
edition = "2021"
publish = false

[dependencies]
flate2 = "*"
lopdf = "*"
wasm-bindgen = "*"
js-sys = "*"
console_error_panic_hook = "*"

[dependencies.web-sys]
version = "*"
features = [
    "console",
    "Window",
    "Document",
    "Element",
    "HtmlCanvasElement",
    "WebGl2RenderingContext",
    "WebGlProgram",
    "WebGlShader",
    "WebGlBuffer",
    "WebGlVertexArrayObject",
    "WebGlTexture",
    "WebGlUniformLocation",
]
