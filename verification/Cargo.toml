[package]
name = "luminair"
version = "0.1.0"
edition = "2021"
publish = false

[dependencies]
luminal = "=0.2.0"
cairo-vm = "=3.2.0"
rayon = "=1.12.0"
rustc-hash = "=1.1.0"
thiserror = "=2.0.21"
