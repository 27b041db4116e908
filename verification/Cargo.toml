[package]
name = "behistun"
version = "0.1.0"
edition = "2021"
publish = false

[dependencies]
anyhow = "=1.0.104"
goblin = "=0.10.7"
libc = "=0.2.191"
