[package]
name = "restic_browser"
version = "0.1.0"
edition = "2021"
publish = false

[dependencies]
serde = { version = "1", features = ["derive"] }
serde_json = "1"
shlex = "1"
nix = { version = "*", features = ["signal"] }
lenient_semver = "*"
semver = "1"
which = "*"
