[package]
name = "limelight"
version = "0.1.0"
edition = "2021"
publish = false

[dependencies]
bytemuck = "1"
wasm-bindgen = "0.2"
web-sys = { version = "0.3", features = ["WebGl2RenderingContext", "WebGlBuffer", "WebGlProgram", "WebGlShader", "WebGlUniformLocation", "WebGlVertexArrayObject", "WebGlActiveInfo"] }
