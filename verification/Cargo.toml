[package]
name = "ue"
version = "0.1.0"
edition = "2021"
publish = false

[dependencies]
unicode-width = "*"
regex = "*"
crossterm = "*"
serde_json = "*"
arboard = "*"
pulldown-cmark = "*"
termimad = "*"
clap = { version = "*", features = ["derive"] }

[dev-dependencies]
tempfile = "*"
