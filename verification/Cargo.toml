[package]
name = "input_gatherer"
version = "0.1.0"
edition = "2021"
publish = false

[dependencies]
smithay = { version = "=0.3.0", default-features = false, features = ["backend_libinput", "backend_session", "backend_udev"] }
slog = "=2.8.2"
slog-async = "=2.8.0"
slog-term = "=2.9.2"
xkbcommon = "=0.4.1"
