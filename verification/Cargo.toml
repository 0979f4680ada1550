[package]
name = "macho_disasm"
version = "0.1.0"
edition = "2021"
publish = false

[dependencies]
anyhow = "=1.0.104"
capstone = "=0.14.0"
goblin = "=0.10.7"
scroll = "=0.13.0"
