[package]
name = "wicked64"
version = "0.1.0"
edition = "2021"
publish = false

[dependencies]
anyhow = "1"
bitvec = "1"
byteorder = "1"
hashbrown = "0.14"
iced-x86 = { version = "1", default-features = false, features = ["std", "code_asm"] }
region = "3"
tracing = "0.1"
