[package]
name = "pgdiff"
version = "0.1.0"
edition = "2021"
publish = false

[dependencies]
clap = { version = "=4.6.7", features = ["derive"] }
elephantry = { version = "=5.3.2", features = ["inspect"] }
thiserror = "=2.0.21"
