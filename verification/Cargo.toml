[package]
name = "moonwalk"
version = "0.1.0"
edition = "2021"
publish = false

[dependencies]
glam = "=0.34.2"
thiserror = "=2.0.21"
rect_packer = "=0.2.1"
cosmic-text = "=0.19.0"
etagere = "=0.3.0"
