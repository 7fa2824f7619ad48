[package]
name = "misri"
version = "0.1.0"
edition = "2021"

[dependencies]
char_stream = "*"
clap = "4"
