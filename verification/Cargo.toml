[package]
name = "fp-appimage-updater"
version = "1.0.0"
edition = "2021"
publish = false

[dependencies]
anyhow = "1"
glob = "0.3"
hex = "0.4"
libc = "0.2"
pico-args = "0.5"
regex-lite = "0.1"
rust-ini = "0.21"
serde = { version = "1", features = ["derive"] }
serde_json = "1"
serde_yaml = "0.9"
sha2 = "0.10"
ureq = { version = "3", features = ["json"] }
zip = { version = "2", default-features = false, features = ["deflate"] }
zsync-rs = "*"
