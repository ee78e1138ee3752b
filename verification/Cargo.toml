[package]
name = "dirplayer"
version = "0.1.0"
edition = "2021"
publish = false

[dependencies]
chrono = "0.4"
colorous = "1"
crossbeam = "0.8"
crossbeam-channel = "0.5"
crossterm = "0.27"
dirs = "5"
itertools = "0.12"
libmpv2 = "*"
log = "0.4"
log4rs = "1"
notify = "6"
rand = "0.8"
ratatui = "0.26"
rodio = "0.17"
serde = { version = "1", features = ["derive"] }
serde_derive = "1"
serde_json = "1"
strum = { version = "0.26", features = ["derive"] }
sublime_fuzzy = "0.7"
walkdir = "2"
zip = { version = "0.6", default-features = false, features = ["deflate"] }
