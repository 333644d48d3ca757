[package]
name = "embargo"
version = "0.1.0"
edition = "2021"
publish = false

[dependencies]
anyhow = "1"
chrono = { version = "0.4", default-features = false, features = ["clock", "std"] }
clap = { version = "4", default-features = false, features = ["std", "derive", "help", "usage", "error-context"] }
dirs = "4"
human-repr = "1"
hyprland = "0.3"
serde = { version = "1", features = ["derive"] }
slint = { version = "~1.4", default-features = false, features = ["std", "compat-1-2", "renderer-software"] }
slint-interpreter = { version = "~1.4", default-features = false, features = ["std", "compat-1-2", "renderer-software"] }
smithay-client-toolkit = { version = "0.17", default-features = false }
spin_on = "0.1"
sysinfo = { version = "0.29", default-features = false }
toml = "0.7"
tracing = "0.1"
tracing-subscriber = { version = "0.3", default-features = false, features = ["fmt", "ansi", "std"] }
wayland-client = "0.30"
