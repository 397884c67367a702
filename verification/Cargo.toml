[package]
name = "aipman"
version = "0.1.0"
edition = "2021"
publish = false

[dependencies]
version-compare = "*"
clap = { version = "*", features = ["derive"] }
dirs = "*"
flate2 = "*"
glob = "*"
reqwest = { version = "*", default-features = false, features = ["blocking"] }
serde = { version = "*", features = ["derive"] }
serde_json = "*"
tar = "*"
zip-extract = "*"
