[package]
name = "window_minimization"
version = "0.1.0"
edition = "2021"
publish = false

[dependencies]
anyhow = "1"
smithay = { version = "*", default-features = false, features = ["desktop", "wayland_frontend", "renderer_gl", "backend_egl"] }
