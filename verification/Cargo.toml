[package]
name = "chip8_emulator"
version = "0.1.0"
edition = "2021"
publish = false

[dependencies]
rand = "0.8"
fixedstep = "*"
raylib = "3.7"
rodio = "0.17"
glfw = "0.45"
