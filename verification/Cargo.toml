[package]
name = "keyremap"
version = "0.1.0"
edition = "2021"
publish = false

[dependencies]
clap = { version = "=4.6.7", features = ["derive"] }
env_logger = "=0.11.11"
log = "=0.4.34"
rdev = { version = "=0.5.3", features = ["serialize", "unstable_grab"] }
serde = { version = "=1.0.229", features = ["derive"] }
toml = "=1.1.7"
windows-sys = { version = "=0.61.2", features = ["Win32_Foundation", "Win32_System_Console", "Win32_System_Threading"] }
windows-service = "=0.8.1"
