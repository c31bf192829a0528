[package]
name = "exuberant_optimizer"
version = "0.1.0"
edition = "2021"
publish = false

[dependencies]
chrono = { version = "=0.4.45", default-features = false, features = ["clock", "std"] }
eframe = { version = "=0.33.3", default-features = false, features = ["default_fonts", "glow", "x11"] }
egui_extras = { version = "=0.33.3", default-features = false }
sysinfo = { version = "=0.33.1", default-features = false, features = ["system"] }
windows = { version = "=0.57.0", features = ["Win32_Foundation", "Win32_Security", "Win32_System_SystemInformation", "Win32_System_Threading"] }
