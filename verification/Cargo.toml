[package]
name = "sage-hot-lib"
version = "0.1.0"
edition = "2021"
publish = false

[dependencies]
crc32fast = "1"
libloading = "0.8"
notify = "*"
notify-debouncer-full = "*"
