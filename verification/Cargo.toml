[package]
name = "img4avif"
version = "0.6.0"
edition = "2021"
publish = false

[dependencies]
image = { version = "0.25", default-features = false, features = ["jpeg", "png", "webp"] }
img-parts = "0.3"
ravif = { version = "*", default-features = false }
rayon = "1"
rgb = "0.8"
thiserror = "2"
log = "0.4"
