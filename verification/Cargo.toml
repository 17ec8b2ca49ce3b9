[package]
name = "stratis_core"
version = "0.1.0"
edition = "2021"
publish = false

[dependencies]
devicemapper = "*"
dbus = "*"
nix = "*"
serde = { version = "*", features = ["derive"] }
serde_json = "*"
