[package]
name = "qubes-meminfo-writer-ng"
version = "0.1.0"
edition = "2021"
publish = false

[dependencies]
serde = { version = "=1.0.229", features = ["derive"] }
sysinfo = { version = "=0.33.1", default-features = false, features = ["system"] }
toml = "=0.8.23"

[lints.rust]
unexpected_cfgs = { level = "warn", check-cfg = ["cfg(no_xenstore)"] }
