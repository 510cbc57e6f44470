[package]
name = "thinflux"
version = "0.2.0"
edition = "2021"
publish = false

[dependencies]
image = { version = "=0.25.10", default-features = false, features = ["jpeg", "png", "webp"] }
lopdf = "=0.46.0"
oxipng = { version = "10", default-features = false, features = ["parallel", "zopfli", "filetime"] }
webp = "=0.3.1"
walkdir = "=2.5.0"
clap = { version = "=4.6.7", features = ["derive"] }
colored = "=3.1.1"
indicatif = "=0.18.6"
rayon = "=1.12.0"

[dev-dependencies]
tempfile = "=3.27.0"
