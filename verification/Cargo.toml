[package]
name = "videoeditor"
version = "0.1.0"
edition = "2021"
publish = false

[dependencies]
anyhow = "=1.0.104"
crossbeam-channel = "=0.5.17"
hound = "=3.5.1"
image = "=0.25.10"
imageproc = "=0.27.0"
log = "=0.4.34"
rodio = { version = "=0.22.2", default-features = false, features = ["flac", "mp3", "vorbis", "wav"] }
serde = { version = "=1.0.229", features = ["derive"] }
serde_json = "=1.0.151"
threadpool = "=1.8.1"
