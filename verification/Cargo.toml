[package]
name = "ribble_whisper"
version = "0.1.0"
edition = "2021"
publish = false

[dependencies]
strsim = "*"
log = "*"
parking_lot = "*"
strum = { version = "*", features = ["derive"] }
sdl2 = "*"
voice_activity_detector = "*"
whisper-rs = "*"
whisper-rs-sys = "*"
