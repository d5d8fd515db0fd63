[package]
name = "xchdev"
version = "0.1.0"
edition = "2021"
publish = false

[dependencies]
chia-protocol = "=0.36.1"
chia-consensus = "=0.36.1"
chia-traits = "=0.36.1"
chia-puzzle-types = "=0.36.1"
chia-sdk-driver = "=0.36.0"
chia-sdk-types = "=0.36.0"
clvmr = "=0.16.4"
clvm-traits = "=0.36.1"
clvm-utils = "=0.36.1"
zstd = "=0.13.3"
serde = { version = "*", features = ["derive"] }
toml = "*"
homedir = "*"
