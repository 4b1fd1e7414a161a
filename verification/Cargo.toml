[package]
name = "banner_builder"
version = "0.1.0"
edition = "2021"
publish = false

[dependencies]
ab_glyph = "0.2"
image = { version = "0.25", default-features = false, features = ["png", "jpeg", "gif", "bmp"] }
imageproc = { version = "0.25", default-features = false }
textwrap = "0.16"
log = "0.4"
serde = { version = "1", features = ["derive"] }
serde_yaml = "0.9"
simple_logger = "*"

[dev-dependencies]
dejavu = "*"
