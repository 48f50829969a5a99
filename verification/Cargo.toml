[package]
name = "gamebient_input"
version = "0.2.0"
edition = "2021"
publish = false

[dependencies]
bevy = { version = "0.18", default-features = false, features = ["std", "bevy_state", "bevy_window", "keyboard", "gamepad"] }
wasm-bindgen = "0.2"
js-sys = "0.3"
