[package]
name = "exif_mtime"
version = "0.1.0"
edition = "2021"
publish = false

[dependencies]
rexif = "*"
filetime = "*"
log = "*"
env_logger = "*"
