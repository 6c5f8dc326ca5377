[package]
name = "crab_boy"
version = "0.1.0"
edition = "2021"
publish = false

[dependencies]
env_logger = "=0.9.3"
log = "=0.4.35"
pixels = "=0.9.0"
winit = "=0.26.1"
winit_input_helper = "=0.11.1"
imgui = "=0.8.2"
imgui-wgpu = "=0.19.0"
imgui-winit-support = { version = "=0.8.2", default-features = false, features = ["winit-26"] }
