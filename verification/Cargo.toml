[package]
name = "text_pipeline"
version = "0.1.0"
edition = "2021"
publish = false

[dependencies]
glyphon = "=0.3.0"
rustc-hash = "=1.1.0"
twox-hash = "=1.6.3"
wgpu = "=0.16.3"
