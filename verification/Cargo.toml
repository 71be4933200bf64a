[package]
name = "loader"
version = "0.1.0"
edition = "2021"

[dependencies]
elf = "*"
memory_addr = "*"
