[package]
name = "waves_ui"
version = "0.1.0"
edition = "2021"
publish = false

[dependencies]
encoding_rs = "0.8"
image = { version = "*", default-features = false, features = ["png", "jpeg", "gif", "bmp"] }
same-file = "1"
egui = { version = "*", default-features = false }
