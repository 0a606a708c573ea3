[package]
name = "slideshow"
version = "0.1.0"
edition = "2021"
publish = false

[dependencies]
bpaf = { version = "*", features = ["derive"] }
fs-err = "*"
markdown = "*"
maud = "*"
notify-debouncer-full = "*"
serde = { version = "*", features = ["derive"] }
serde_yaml = "*"
