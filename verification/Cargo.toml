[package]
name = "atomic_present"
version = "0.1.0"
edition = "2021"
publish = false

[dependencies]
anyhow = "*"
drm = "*"
