[package]
name = "visual"
version = "0.1.0"
edition = "2021"
publish = false

[dependencies]
toml = "=0.8.23"
rodio = "=0.19.0"
notify = "=8.2.0"
color-eyre = "=0.6.5"

[dev-dependencies]
rosc = "=0.10.1"
