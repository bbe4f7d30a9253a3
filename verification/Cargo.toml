[package]
name = "depwise_analysis"
version = "0.1.0"
edition = "2021"
publish = false

[dependencies]
clap = { version = "=4.6.7", features = ["derive"] }
pep508_rs = "=0.9.2"
rustpython-parser = "=0.4.0"
thiserror = "=2.0.21"
toml = "0.8"
