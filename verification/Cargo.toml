[package]
name = "crosshair"
version = "0.2.0"
edition = "2021"
publish = false

[dependencies]
sha2 = "0.10"
clap = { version = "4", features = ["derive"] }
ctrlc = "3"
gtk4 = "*"
gtk4-layer-shell = "*"
libc = "0.2"
serde = { version = "1", features = ["derive"] }
serde_json = "1"
toml = "*"
ureq = { version = "3", features = ["json"] }
x11rb = { version = "0.13", features = ["shape"] }
