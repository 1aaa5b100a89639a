[package]
name = "shield_backup"
version = "0.1.0"
edition = "2021"
publish = false

[dependencies]
chrono = "=0.4.45"
dirs = "=7.0.0"
libc = "=0.2.191"
serde = { version = "=1.0.229", features = ["derive"] }
serde_json = "=1.0.154"
which = "=8.0.6"
winapi = { version = "0.3", features = ["handleapi", "processthreadsapi", "winnt"] }
