[package]
name = "rose_zone_converter"
version = "0.1.0"
edition = "2021"
publish = false

[dependencies]
anyhow = "1"
bevy = { version = "0.16", default-features = false, features = ["bevy_render"] }
clap = { version = "4", default-features = false, features = ["std", "derive", "help", "usage", "error-context", "suggestions"] }
env_logger = { version = "0.11", default-features = false }
image = "=0.25.10"
rayon = "1"
walkdir = "2"
