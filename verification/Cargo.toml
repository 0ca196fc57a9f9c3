[package]
name = "northbridge"
version = "0.1.0"
edition = "2021"
publish = false

[dependencies]
brlapi = "*"
brlapi-sys = "*"
libc = "*"
regex-lite = "*"
thiserror = "*"
