[package]
name = "engine"
version = "0.1.0"
edition = "2021"
publish = false

[dependencies]
urlencoding = "=2.1.3"
nucleo = "=0.5.0"
freedesktop-file-parser = "=0.3.1"
plist = "=1.10.3"
anyhow = "=1.0.104"
dirs = "=7.0.0"
serde = { version = "=1.0.229", features = ["derive"] }
toml = "=1.1.8"
walkdir = "=2.5.0"
shellexpand = "=3.1.2"
evalexpr = "=13.1.0"
open = "=5.4.5"
arboard = { version = "=3.7.0", default-features = false }
freedesktop-icons = "=0.4.0"
icns = "=0.5.0"
image = { version = "=0.25.10", default-features = false, features = ["png"] }
global-hotkey = "=0.9.0"
tokio = { version = "=1.54.1", features = ["time"] }
tracing-subscriber = { version = "=0.3.23", default-features = false, features = ["fmt", "std"] }
iced = { version = "=0.14.0", default-features = false, features = ["tiny-skia", "image-without-codecs", "tokio", "x11", "svg"] }
