[package]
name = "cros_codecs"
version = "0.1.0"
edition = "2021"
publish = false

[dependencies]
anyhow = "1"
cros-libva = "0.0.1"
thiserror = "1"
