[package]
name = "folderinfo"
version = "0.1.0"
edition = "2021"
publish = false

[dependencies]
toml = { version = "*", features = ["preserve_order"] }
itertools = "*"
structopt = "0.3"
