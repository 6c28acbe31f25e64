[package]
name = "vnscene"
version = "0.1.0"
edition = "2021"
publish = false

[dependencies]
freetype-rs = "*"
glium = "=0.27.0"
image = "*"
