[package]
name = "shader_plumber"
version = "0.1.0"
edition = "2021"
publish = false

[dependencies]
relative-path = "=2.0.1"
ash = "=0.38.0"
vk-sync = "=0.1.6"
spirv-reflect = "=0.2.3"
shader-prepper = "=0.2.0"
shaderc = "=0.10.1"
tokio = { version = "=1.53.2", features = ["rt", "rt-multi-thread"] }
failure = "=0.1.8"
