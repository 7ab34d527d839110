[package]
name = "one2xopp"
version = "0.1.0"
edition = "2021"
publish = false

[dependencies]
base64 = "=0.22.1"
flate2 = "=1.1.10"
sanitize-filename = "=0.5.0"
onenote_parser = "=2.0.0"
structopt = "=0.3.26"
typed-path = "=0.12.3"
