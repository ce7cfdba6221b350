[package]
name = "newsfeed"
version = "0.1.0"
edition = "2021"
publish = false

[dependencies]
frame-support = "*"
frame-system = "*"
sp-core = "*"
sp-io = "*"
sp-std = "*"
log = "*"
serde = { version = "*", features = ["derive"] }
parity-scale-codec = { version = "*", features = ["derive"] }
scale-info = { version = "*", features = ["derive"] }
