[package]
name = "glex"
version = "0.1.0"
edition = "2021"
publish = false

[dependencies]
thiserror = "=2.0.21"
ash = "0.38"

[dev-dependencies]
rand = "=0.10.3"
