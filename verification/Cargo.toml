[package]
name = "iv"
version = "0.1.0"
edition = "2021"
publish = false

[dependencies]
chrono = "=0.4.45"
clap = { version = "=4.6.7", features = ["derive"] }
env_logger = "=0.11.11"
image = { version = "=0.25.10", default-features = false, features = ["bmp", "dds", "exr", "ff", "gif", "hdr", "ico", "jpeg", "png", "pnm", "qoi", "tga", "tiff", "webp"] }
image_hasher = "=3.1.1"
log = "=0.4.34"
rayon = "=1.12.0"
softbuffer = { version = "=0.4.8", default-features = false, features = ["x11", "x11-dlopen"] }
sysinfo = "=0.39.6"
winit = { version = "=0.30.13", default-features = false, features = ["rwh_06", "x11"] }
