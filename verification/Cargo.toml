[package]
name = "advanced_rsync"
version = "0.1.0"
edition = "2021"
publish = false

[dependencies]
anyhow = "1"
chrono = "0.4"
clap = "4"
dirs-next = "2"
filetime = "0.2"
ftp = "3"
notify = "*"
regex = "1"
thiserror = "*"
walkdir = "2"
zip = { version = "*", default-features = false, features = ["deflate"] }
