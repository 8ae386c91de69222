[package]
name = "rusty_chip8"
version = "0.1.0"
edition = "2021"
publish = false

[dependencies]
rand = "0.9"
winit = "0.29"
winit_input_helper = "0.16"
minifb = "0.27"
env_logger = "0.11"
log = "0.4"
error-iter = "*"
