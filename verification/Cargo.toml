[package]
name = "rust_shell"
version = "0.1.0"
edition = "2021"
publish = false

[dependencies]
rand = "0.8"
rustyline = "13"
sysinfo = "0.30"
git2 = "0.18"
rustc_version_runtime = "0.3"
