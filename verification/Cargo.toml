[package]
name = "hailux_tui"
version = "0.1.0"
edition = "2021"
publish = false

[dependencies]
unicode-width = "=0.2.3"
base64 = "=0.23.1"
crossterm = "=0.29.0"
serde_json = "=1.0.154"
chrono = "=0.4.45"
ignore = "=0.4.34"
textwrap = "0.16"
