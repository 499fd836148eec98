[package]
name = "vect_boot"
version = "0.1.0"
edition = "2021"
publish = false

[dependencies]
x86_64 = { version = "=0.15.5", default-features = false, features = ["instructions"] }
uefi = "=0.41.0"
log = "=0.4.35"
fatfs = "=0.3.6"
glob = "=0.3.4"
anyhow = "=1.0.104"
