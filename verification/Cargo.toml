[package]
name = "haystack"
version = "0.1.0"
edition = "2021"
publish = false

[dependencies]
anyhow = "1"
clap = { version = "4", features = ["derive"] }
mime_guess = "2"
once_cell = "1"
orgize = "*"
pulldown-cmark = "*"
regex = "1"
syntect = "5"
tiny_http = "0.12"
walkdir = "2"
