[package]
name = "redleaf"
version = "0.1.0"
edition = "2021"
publish = false

[dependencies]
hashbrown = "=0.17.1"
spin = "=0.12.3"
x86_64 = { version = "=0.15.5", default-features = false, features = ["instructions"] }
elfloader = "=0.16.0"
raw-cpuid = "=11.6.0"
