[package]
name = "color_conv"
version = "0.2.1"
edition = "2021"
publish = false

[dependencies]
thiserror = "1.0"
