[package]
name = "raster"
version = "0.2.1"
edition = "2021"
publish = false

[dependencies]
gif = "0.13"
png = "0.17"
image = { version = "0.24", default-features = false, features = ["jpeg"] }
