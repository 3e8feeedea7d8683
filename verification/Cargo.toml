[package]
name = "clenzy"
version = "0.1.0"
edition = "2021"
publish = false

[dependencies]
serde_json = "=1.0.154"
rust-ini = "=0.21.3"
chrono = "=0.4.45"
zip = { version = "=9.1.0", default-features = false, features = ["deflate"] }
clap = { version = "=4.6.7", features = ["derive"] }
color-eyre = "=0.6.5"
dirs = "=7.0.0"
inquire = "=0.9.4"
owo-colors = "=4.4.0"
sysinfo = "=0.39.6"
tracing = "=0.1.44"
tracing-subscriber = { version = "=0.3.23", features = ["env-filter"] }
ureq = "=3.5.0"
plist = "=1.10.3"
windows-registry = "*"
