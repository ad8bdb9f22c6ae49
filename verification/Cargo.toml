[package]
name = "eve_mapmaker"
version = "0.1.0"
edition = "2021"
publish = false

[dependencies]
futures-util = "0.3"
image = { version = "0.25", default-features = false, features = ["bmp", "jpeg", "png", "tiff"] }
lazy_static = "1"
pyo3 = "0.22"
rayon = "1"
reqwest = { version = "0.12", features = ["stream"] }
scraper = "*"
tokio = { version = "1", features = ["full"] }
