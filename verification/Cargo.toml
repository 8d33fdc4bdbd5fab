[package]
name = "geph4_cache"
version = "0.1.0"
edition = "2021"
publish = false

[dependencies]
mizaru = "=0.1.3"
rsa-fdh = "=0.5.0"
rsa = "=0.3.0"
sha2 = "=0.9.9"
rand = "=0.7.3"
bincode = "=1.3.3"
anyhow = "=1.0.104"
serde = "=1.0.229"
