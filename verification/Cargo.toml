[package]
name = "anchor"
version = "0.1.0"
edition = "2021"
publish = false

[dependencies]
rustc-hash = "1.1"
fontdue = "0.8"
glam = "0.25"
image = { version = "0.24", default-features = false, features = ["png"] }
serde = { version = "1", features = ["derive"] }
bytemuck = { version = "1", features = ["derive"] }
lyon = "1"
log = "0.4"
anyhow = "1"
glyph_brush = "0.7"
