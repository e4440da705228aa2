[package]
name = "mailsync"
version = "0.1.0"
edition = "2021"
publish = false

[dependencies]
base64 = "0.13"
maildir = "*"
mailparse = "*"
proc-lock = "*"
rfc2047-decoder = "*"
rusqlite = { version = "*", features = ["bundled"] }
serde_json = "1"
sha2 = "0.10"
urlencoding = "2"
