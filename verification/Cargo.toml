[package]
name = "which"
version = "0.1.0"
edition = "2021"
publish = false

[dependencies]
env_home = "0.1"
regex = "1"
rustix = { version = "1", default-features = false, features = ["fs", "std"] }
thiserror = "1"
winsafe = { version = "0.0.19", features = ["kernel"] }
