[package]
name = "kernel"
version = "0.1.0"
edition = "2021"
publish = false

[dependencies]
int-enum = "0.5"
rlibc = "=1.0.0"
