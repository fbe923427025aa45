[package]
name = "piclayout"
version = "0.1.0"
edition = "2021"
publish = false

[dependencies]
image = { version = "0.25", default-features = false, features = ["jpeg", "png"] }
fast_image_resize = { version = "5", features = ["image"] }
turbojpeg = { version = "1", features = ["image"] }
lcms2 = "6"
cosmic-text = "0.14"
kamadak-exif = "0.6"
flate2 = "1"
rayon = "1"
serde = { version = "1", features = ["derive"] }
serde_json = "1"
tempfile = "3"
thiserror = "1"
heif = "*"
ultrahdr-rs = "*"
