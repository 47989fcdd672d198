[package]
name = "pymute"
version = "0.1.0"
edition = "2021"
publish = false

[dependencies]
clap = { version = "4", features = ["derive"] }
colored = "2"
cp_r = "0.5"
csv = "1"
glob = "0.3"
indicatif = { version = "0.17", features = ["rayon"] }
rand = "0.8"
rand_chacha = "0.3"
rayon = "1"
regex = "1"
tempfile = "3"
