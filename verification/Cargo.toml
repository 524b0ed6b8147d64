[package]
name = "dusk_analyzer"
version = "0.1.0"
edition = "2021"
publish = false

[dependencies]
cargo_metadata = "0.12"
clap = "2"
console = "0.15"
rustc_tools_util = "0.2"
semver = "1"
thiserror = "1"
tracing = "0.1"
tracing-subscriber = "0.3"
url = "2"
