[package]
name = "realistic-mouse-jiggler"
version = "0.1.2"
edition = "2021"
publish = false

[dependencies]
anyhow = "=1.0.104"
core-foundation = "=0.10.1"
core-graphics = "=0.25.0"
directories = "=6.0.0"
eframe = { version = "=0.35.0", default-features = false, features = ["default_fonts", "glow", "x11"] }
enigo = "=0.6.1"
fastrand = "=2.5.0"
image = { version = "=0.25.10", default-features = false, features = ["png"] }
ksni = { version = "=0.3.7", features = ["blocking"] }
serde = { version = "=1.0.229", features = ["derive"] }
toml = "=1.1.8"
x11rb = "=0.13.2"
