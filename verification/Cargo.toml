[package]
name = "hola"
version = "0.1.0"
edition = "2021"
publish = false

[dependencies]
chrono = "0.4"
serde = { version = "1", features = ["derive"] }
toml = "*"
clap = { version = "4", features = ["derive"] }
console = "*"
prettytable-rs = "*"
subprocess = "*"
pamsm = "*"
v4l = "*"
dlib-face-recognition = "*"
image = "*"
