[package]
name = "media_album"
version = "0.1.0"
edition = "2021"
publish = false

[dependencies]
chrono = "0.4"
kamadak-exif = "0.5"
etag = "4"
axum = "0.7"
axum-macros = "0.4"
axum-server = { version = "0.7", features = ["tls-rustls"] }
tokio = { version = "1", features = ["full"] }
tokio-util = { version = "0.7", features = ["io"] }
tower-http = { version = "0.5", features = ["cors", "compression-br"] }
serde = { version = "1", features = ["derive"] }
serde_json = "1"
serde_with = "3"
image = { version = "0.25", default-features = false, features = ["jpeg", "png"] }
webp = "0.3"
libheif-rs = "1"
walkdir = "2"
rayon = "1"
log = "0.4"
lazy_static = "1"
