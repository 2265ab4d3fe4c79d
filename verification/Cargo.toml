[package]
name = "picorv32-rt"
version = "0.1.0"
edition = "2021"
publish = false

[dependencies]
picorv32 = "*"
r0 = "*"
