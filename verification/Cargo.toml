[package]
name = "mikan_os"
version = "0.1.0"
edition = "2021"
publish = false

[dependencies]
goblin = "=0.10.7"
log = "=0.4.35"
uefi = { version = "=0.28.0", features = ["logger", "alloc"] }
bitfield = "=0.20.0"
