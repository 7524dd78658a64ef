[package]
name = "deniald"
version = "0.1.0"
edition = "2021"
publish = false

[dependencies]
drm = "*"
drm-ffi = "*"
x11rb = "*"
serde_json = "*"
tracing = "*"
smithay = { version = "*", default-features = false }
