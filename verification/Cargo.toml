[package]
name = "laozhou"
version = "0.1.0"
edition = "2021"
publish = false

[dependencies]
anyhow = "1"
base64 = "0.22"
chrono = "0.4"
clap = { version = "4", features = ["derive", "string"] }
crossterm = "0.29"
fuzzy-matcher = "0.3"
image = { version = "0.25", default-features = false, features = ["png", "gif", "jpeg", "webp", "bmp"] }
libc = "0.2"
rand = "0.9"
rodio = { version = "0.20", default-features = false, features = ["wav"] }
rpassword = "7"
serde_json = "1"
tempfile = "3"
tokio = { version = "1", features = ["rt-multi-thread", "macros", "time", "signal", "net", "io-util", "sync"] }
tracing = "0.1"
unicode-segmentation = "1"
unicode-width = "0.2"
vte = "0.15"
