[package]
name = "tracecore"
version = "0.1.0"
edition = "2021"
publish = false

[dependencies]
anyhow = "=1.0.104"
libbpf-rs = "0.20"
log = "=0.4.34"
