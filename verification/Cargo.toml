[package]
name = "gl_bootstrap"
version = "0.1.0"
edition = "2021"
publish = false

[dependencies]
glutin = { version = "0.31", default-features = false, features = ["egl", "glx", "x11"] }
glutin-winit = { version = "0.4", default-features = false, features = ["egl", "glx", "x11"] }
raw-window-handle = "0.5"
winit = { version = "0.29", default-features = false, features = ["x11", "rwh_05"] }
