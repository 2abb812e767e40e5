[package]
name = "codec_compare"
version = "0.1.0"
edition = "2021"
publish = false

[dependencies]
codec-eval = { version = "=0.3.3", features = ["chart", "interpolation"] }
clap = { version = "=4.6.7", features = ["derive"] }
anyhow = "=1.0.104"
serde = { version = "=1.0.229", features = ["derive"] }
serde_json = "=1.0.154"
chrono = { version = "=0.4.45", features = ["serde"] }
thiserror = "=2.0.21"
image = { version = "=0.25.10", default-features = false, features = ["png", "jpeg"] }
imgref = "=1.12.3"
rgb = "=0.8.53"
png = "=0.18.1"
csv = "=1.4.0"
rayon = "=1.12.0"
butteraugli = "=0.9.3"
fast-ssim2 = "=0.9.1"
mozjpeg = "=0.10.13"
jpegli-rs = "=0.12.0"
jpegxl-rs = "=0.16.0"
ravif = "=0.13.0"
zenavif = "=0.1.6"
zenpnm = { version = "=0.1.0", features = ["imgref"] }
zenjpeg = "=0.8.4"
webp = "=0.3.1"
