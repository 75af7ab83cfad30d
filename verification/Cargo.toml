[package]
name = "svg2pdc"
version = "0.1.0"
edition = "2021"
publish = false

[dependencies]
anyhow = "1"
byteorder = "1"
clap = { version = "4", features = ["derive"] }
roxmltree = "*"
svgtypes = "*"
thiserror = "*"
