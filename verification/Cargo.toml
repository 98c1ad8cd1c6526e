[package]
name = "another_world"
version = "0.1.0"
edition = "2021"
publish = false

[dependencies]
byteorder = "=1.5.0"
rand = "=0.8.8"
clap = "=2.34.0"
env_logger = "=0.8.4"
log = "=0.4.34"
libc = "=0.2.191"
rb = "=0.3.2"
sdl2 = { version = "=0.34.5", features = ["mixer", "unsafe_textures"] }
