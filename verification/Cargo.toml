[package]
name = "bridges_common"
version = "0.1.0"
edition = "2021"
publish = false

[dependencies]
sp-runtime = "=49.0.0"
num-traits = "=0.2.19"
parity-scale-codec = "=3.7.5"
staging-xcm = "=25.0.0"
frame-support = "=49.0.1"
strum = { version = "=0.28.0", features = ["derive"] }
futures = "=0.3.34"
anyhow = "=1.0.104"
