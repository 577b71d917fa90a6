[package]
name = "lod_prepare"
version = "0.1.0"
edition = "2021"
publish = false

[dependencies]
clap = "2.33"
env_logger = "0.8"
exitcode = "1.1"
log = "0.4"
rusqlite = "0.24"
rustfft = "5"
