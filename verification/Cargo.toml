[package]
name = "splinter"
version = "0.1.0"
edition = "2021"
publish = false

[dependencies]
anyhow = "=1.0.104"
async-compat = "=0.2.6"
async-dup = "=1.2.4"
bimap = "=0.6.3"
craftio-rs = "=0.1.0"
inventory = "=0.3.25"
json = "=0.12.4"
lazy_static = "=1.5.1"
log = "=0.4.34"
mcproto-rs = { version = "=0.2.0", default-features = false, features = ["std", "v1_16_3"] }
smol = "=2.0.2"
