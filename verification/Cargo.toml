[package]
name = "aegis"
version = "0.1.0"
edition = "2021"
publish = false

[dependencies]
aes-gcm = "0.10"
argon2 = "0.5"
blake3 = "1"
regex = "1"
kamadak-exif = "0.5"
image = "0.24"
rand = "0.8"
chrono = "0.4"
serde = { version = "1", features = ["derive"] }
serde_json = "1"
anyhow = "1"
clap = { version = "4", features = ["derive"] }
sled = "0.34"
notify = "6"
uuid = { version = "1", features = ["v4"] }
rayon = "1"
rustfft = "6"
symphonia = "0.5"
textplots = "0.8"
ndarray = "0.15"
chacha20poly1305 = "0.10"
