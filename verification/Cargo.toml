[package]
name = "kami"
version = "0.1.0"
edition = "2021"
publish = false

[dependencies]
anyhow = "1"
tokio = { version = "1", features = ["macros", "rt-multi-thread", "sync"] }
tracing-subscriber = "0.3"
unicode-segmentation = "1"
wgpu = "0.12"
wgpu_glyph = "0.16"
winit = { version = "0.26", default-features = false, features = ["x11"] }
