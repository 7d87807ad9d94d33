[package]
name = "crosshair_switcher"
version = "0.1.0"
edition = "2021"
publish = false

[dependencies]
anyhow = "=1.0.104"
fltk = "=1.5.23"
image = { version = "=0.25.10", default-features = false, features = ["png"] }
json = "=0.12.4"
vtf = "=0.4.1"
