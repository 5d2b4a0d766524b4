[package]
name = "iqviewer"
version = "0.1.0"
edition = "2021"
publish = false

[dependencies]
iced = { version = "=0.14.0", default-features = false, features = ["tiny-skia", "x11", "image-without-codecs", "advanced", "thread-pool"] }
notify = "=8.2.1"
rfd = { version = "=0.17.2", default-features = false, features = ["xdg-portal"] }
