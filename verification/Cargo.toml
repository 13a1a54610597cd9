[package]
name = "carboxyl"
version = "0.1.0"
edition = "2021"
publish = false

[dependencies]
unicode-width = "0.2"
unicode-segmentation = "1"
url = "2"
ratatui = "0.29"
crossterm = "0.28"
clap = { version = "4", features = ["derive"] }
color-eyre = "0.6"
anyhow = "1"
glam = "*"
dpi = "*"
rustix = { version = "1", features = ["termios", "stdio"] }
rustls = "0.23"
signal-hook = "0.3"
simplelog = "0.12"
log = "0.4"
