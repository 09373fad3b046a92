[package]
name = "aikup"
version = "0.1.0"
edition = "2021"
publish = false

[dependencies]
semver = "=1.0.28"
clap = { version = "=4.6.7", features = ["derive", "cargo"] }
console = "=0.16.6"
color-print = "=0.3.7"
arc-swap = "=1.9.3"
once_cell = "=1.21.4"
dirs = "=7.0.0"
flate2 = "=1.1.10"
http-body-util = "=0.1.5"
miette = "=7.6.0"
octocrab = "=0.41.2"
serde = { version = "=1.0.229", features = ["derive"] }
tar = "=0.4.46"
tokio = { version = "=1.54.1", features = ["full"] }
toml = "=1.2.1"
which = "=8.0.6"
