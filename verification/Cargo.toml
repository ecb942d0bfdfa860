[package]
name = "frameflow"
version = "0.1.0"
edition = "2021"
publish = false

[dependencies]
crossbeam-channel = "*"
ffmpeg-next = "*"
ffmpeg-sys-next = "*"
