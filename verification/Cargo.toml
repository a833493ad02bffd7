[package]
name = "file_x_sorter"
version = "0.3.0"
edition = "2021"
publish = false

[dependencies]
walkdir = "*"
sha2 = "*"
uuid = { version = "*", features = ["v4"] }
rayon = "*"
