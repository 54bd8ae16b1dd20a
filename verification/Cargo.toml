[package]
name = "nod"
version = "0.1.0"
edition = "2021"
publish = false

[dependencies]
encoding_rs = "*"
aes = "*"
sha1 = "*"
crc32fast = "*"
md-5 = "*"
xxhash-rust = { version = "*", features = ["xxh64"] }
