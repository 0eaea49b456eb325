[package]
name = "argus"
version = "0.1.0"
edition = "2021"
publish = false

[dependencies]
anyhow = "1"
base64 = "=0.22.1"
clap = { version = "4", features = ["derive"] }
colored = "2"
crossterm = "0.28"
dialoguer = "0.11"
directories = "5"
image = { version = "=0.25.10", default-features = false, features = ["png", "jpeg", "gif", "webp", "tiff", "bmp"] }
indicatif = "0.17"
libc = "0.2"
ocrs = "=0.13.1"
opener = "0.7"
ratatui = "=0.29.0"
rayon = "1"
regex = "=1.13.1"
rten = "=0.26.0"
serde = { version = "1", features = ["derive"] }
serde_json = "1"
ureq = { version = "=2.12.1", features = ["json"] }
walkdir = "2"
