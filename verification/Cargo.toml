[package]
name = "http_digest"
version = "0.1.0"
edition = "2021"
publish = false

[dependencies]
adler32 = "1"
base64 = "0.13"
bytes = "1"
crc32c = "0.6"
http = "0.2"
http-body = "0.4"
md-5 = "0.10"
sha1 = "0.10"
sha2 = "0.10"
tower = { version = "0.4", features = ["buffer"] }
