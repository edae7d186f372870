[package]
name = "video_toolbox"
version = "0.1.0"
edition = "2021"
publish = false

[dependencies]
core-foundation = "0.9"
thiserror = "1"
