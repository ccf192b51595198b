[package]
name = "gkernel"
version = "0.1.0"
edition = "2021"
publish = false

[dependencies]
axmm = "=0.3.0-preview.3"
axstd = "=0.3.0-preview.3"
