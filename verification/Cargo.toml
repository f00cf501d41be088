[package]
name = "permalink"
version = "0.1.0"
edition = "2021"
publish = false

[dependencies]
percent-encoding = "2"
thiserror = "1"
unicode-normalization = "0.1"
url = "2"

[dev-dependencies]
regex = "1"
