[package]
name = "adi_fe_iced"
version = "0.1.0"
edition = "2021"
publish = false

[dependencies]
iced = { version = "=0.14.0", default-features = false, features = ["x11", "tiny-skia", "smol"] }
iced_core = "=0.14.0"
oneshot = "=0.2.1"
log = "=0.4.35"
simplelog = "=0.12.2"
better-panic = "=0.3.0"
native-dialog = "=0.9.7"
