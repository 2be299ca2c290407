[package]
name = "chip8_emulator"
version = "0.1.0"
edition = "2021"
publish = false

[dependencies]
log = "0.4"
log4rs = "1"
rand = "0.8"
sdl2 = "0.35"
structopt = "0.3"
termion = "1.5"
tui = { version = "0.19", default-features = false, features = ["termion"] }
