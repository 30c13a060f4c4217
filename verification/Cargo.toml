[package]
name = "boiler"
version = "0.1.0"
edition = "2021"
publish = false

[dependencies]
glob = "*"
url = "*"
anyhow = "*"
chrono = "*"
clap = { version = "*", features = ["derive"] }
flate2 = "*"
tar = "*"
zip = { version = "*", default-features = false, features = ["deflate"] }
tempfile = "*"
reqwest = { version = "*", default-features = false, features = ["blocking"] }
walkdir = "*"
yini = "*"
seq-map = "*"
