[package]
name = "osdev"
version = "0.1.0"
edition = "2021"
publish = false

[dependencies]
spin = "*"
x86_64 = "=0.14.13"
