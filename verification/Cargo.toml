[package]
name = "sp"
version = "0.1.0"
edition = "2021"
publish = false

[dependencies]
anyhow = "1"
base64 = "0.22"
blake3 = "1"
image = { version = "0.25", default-features = false, features = ["jpeg", "png", "tiff", "webp"] }
kamadak-exif = "0.6"
memmap2 = "0.9"
rawler = "0.7"
rayon = "1"
rten = "*"
rten-tensor = "*"
rusqlite = { version = "0.32", features = ["bundled"] }
serde = { version = "1", features = ["derive"] }
walkdir = "2"
