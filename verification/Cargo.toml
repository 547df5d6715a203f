[package]
name = "hd2mm_lib"
version = "0.1.0"
edition = "2021"
publish = false

[dependencies]
uuid = { version = "=1.29.0", features = ["v4"] }
serde_json = "=1.0.154"
sanitize-filename = "=0.6.0"
fs-more = "=0.8.1"
tempdir = "=0.3.7"
zip-extract = "=0.4.1"
thiserror = "=2.0.21"
log = "=0.4.34"
eframe = { version = "=0.29.1", default-features = false, features = ["glow", "default_fonts", "x11"] }
