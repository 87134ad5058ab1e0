[package]
name = "grt"
version = "0.1.0"
edition = "2021"
publish = false

[dependencies]
bytemuck = { version = "=1.25.2", features = ["derive"] }
cfg-if = "=1.0.5"
cgmath = "=0.18.0"
console_error_panic_hook = "=0.1.7"
console_log = "=0.2.2"
env_logger = "=0.10.2"
image = { version = "=0.24.9", default-features = false, features = ["png", "jpeg"] }
log = "=0.4.34"
specs = "=0.20.0"
tobj = { version = "=3.2.5", default-features = false }
wasm-bindgen = "=0.2.129"
web-sys = { version = "=0.3.72", features = ["Document", "Window", "Element"] }
wgpu = "=0.15.1"
winit = "=0.28.7"
