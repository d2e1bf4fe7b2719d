[package]
name = "venus"
version = "0.1.0"
edition = "2021"
publish = false

[dependencies]
blinds = { version = "=0.2.0", default-features = false, features = ["event-cache"] }
fontdue = "=0.9.5"
glam = "=0.34.1"
glow = "=0.4.0"
golem = "=0.1.7"
image = { version = "=0.25.10", default-features = false, features = ["png", "jpeg", "gif", "bmp"] }
mint = "=0.5.9"
platter = "=0.1.4"
rodio = { version = "=0.21.1", default-features = false, features = ["wav", "vorbis", "flac", "mp3"] }
rustc-hash = "=2.1.3"
slotmap = "=1.1.1"
