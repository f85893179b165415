[package]
name = "xlsxlite"
version = "0.1.0"
edition = "2021"
publish = false

[dependencies]
xmlwriter = "*"
zip = { version = "*", default-features = false, features = ["deflate"] }
