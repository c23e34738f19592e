[package]
name = "glycin_image_rs"
version = "0.1.0"
edition = "2021"
publish = false

[dependencies]
bcdec_rs = "=0.2.1"
image = "=0.25.10"
glycin-utils = { version = "=5.0.1", features = ["image-rs"] }
gufo = { version = "=0.5.4", features = ["all-image-formats"] }
gufo-common = "=2.0.0"
hayro-jpeg2000 = "=0.5.0"
image-extras = "=0.1.1"
