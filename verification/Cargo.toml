[package]
name = "procgen"
version = "0.1.0"
edition = "2021"
publish = false

[dependencies]
arrayvec = "*"
bitflags = "*"
gl = "*"
glutin = "0.31"
glutin-winit = "0.4"
image = "*"
noise = "*"
raw-window-handle = "0.5"
vek = "*"
winit = "0.29"
