[package]
name = "saola_capture"
version = "0.1.0"
edition = "2021"
publish = false

[dependencies]
image = { version = "=0.25.10", default-features = false, features = ["png", "webp"] }
clap = { version = "=4.6.7", default-features = false, features = ["std", "derive", "help", "usage", "error-context"] }
tokio = { version = "=1.54.1", features = ["rt-multi-thread", "signal", "macros", "time", "sync"] }
zbus = { version = "=5.19.0", default-features = false, features = ["tokio"] }
cosmic-text = "=0.15.0"
iced = { version = "=0.14.0", default-features = false, features = ["canvas", "image-without-codecs", "tokio", "tiny-skia", "x11"] }
