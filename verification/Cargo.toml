[package]
name = "process_find"
version = "0.1.0"
edition = "2021"
publish = false

[dependencies]
anyhow = "1"
starlark = "*"
sysinfo = "0.23.5"
