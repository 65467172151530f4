[package]
name = "pebblecrypt"
version = "0.1.2"
edition = "2021"
publish = false

[dependencies]
age = "=0.12.1"
getrandom = "=0.3.4"
zeroize = "=1.9.1"
tempfile = "=3.27.0"
eframe = { version = "=0.37.0", default-features = false, features = ["glow", "default_fonts", "x11"] }
rfd = { version = "=0.17.2", default-features = false, features = ["xdg-portal"] }
