[package]
name = "moho"
version = "0.1.0"
edition = "2021"
publish = false

[dependencies]
clap = { version = "4", features = ["derive"] }
dirs = "*"
open = "*"
rhai = "1"
string_template = "*"
walkdir = "2"
