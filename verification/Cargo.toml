[package]
name = "invoice_merge"
version = "0.1.0"
edition = "2021"
publish = false

[dependencies]
lopdf = "*"
image = "0.25"
printpdf = { version = "0.7", features = ["embedded_images"] }
libheif-rs = "*"
tempfile = "*"
chrono = "*"
