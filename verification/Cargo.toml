[package]
name = "registry_dag"
version = "0.1.0"
edition = "2021"
publish = false

[dependencies]
daggy = "*"
semver = "*"
serde_json = "*"
walkdir = "*"
