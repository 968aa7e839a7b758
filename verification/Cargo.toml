[package]
name = "scancode"
version = "0.1.0"
edition = "2021"
publish = false

[dependencies]
serde = "*"
serde_yaml = "*"
git2 = "*"
tempfile = "*"
thiserror = "*"
