[package]
name = "jumplist_parser"
version = "0.1.0"
edition = "2021"
publish = false

[dependencies]
cfb = "*"
lnk_parser = "*"
winparsingtools = "*"
serde = { version = "*", features = ["derive"] }
serde_json = "*"
clap = "*"
glob = "*"
