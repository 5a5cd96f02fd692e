[package]
name = "petruterm_shell"
version = "0.1.0"
edition = "2021"
publish = false

[dependencies]
alacritty_terminal = "0.25.1"
cosmic-text = "*"
image = { version = "*", default-features = false }
rustc-hash = "*"
