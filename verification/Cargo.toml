[package]
name = "font_index"
version = "0.1.0"
edition = "2021"
publish = false

[dependencies]
ttf-parser = "*"
rusqlite = { version = "*", features = ["bundled"] }
walkdir = "*"
