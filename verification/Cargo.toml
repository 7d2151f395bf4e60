[package]
name = "wuma_tracker"
version = "0.1.0"
edition = "2021"
publish = false

[dependencies]
rand = "0.8"
goblin = "0.9"
serde = { version = "1", features = ["derive"] }
serde_json = "1"
thiserror = "1"
anyhow = "1"
log = "0.4"
libm = "0.2"
winapi = { version = "0.3", features = ["fileapi", "handleapi", "ioapiset", "winnt", "tlhelp32", "minwindef", "errhandlingapi"] }
