[package]
name = "sras-cli"
version = "0.1.0"
edition = "2021"
publish = false

[dependencies]
byteorder = "=1.5.0"
shell-words = "=1.1.1"
clap = "=3.0.0-beta.2"
clap_derive = "=3.0.0-beta.2"
rustyline = "=8.2.0"
minifb = { version = "=0.19.3", default-features = false, features = ["x11"] }
serialport = { version = "=4.10.1", default-features = false }
serde = { version = "=1.0.229", features = ["derive"] }
toml = "=0.5.11"
