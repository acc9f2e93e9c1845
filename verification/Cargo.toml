[package]
name = "keyboard_map"
version = "0.1.0"
edition = "2021"
publish = false

[dependencies]
gdk = "0.15"
