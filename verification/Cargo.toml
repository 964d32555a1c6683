[package]
name = "mugen"
version = "0.1.0"
edition = "2021"
publish = false

[dependencies]
aes = "0.8"
ctr = "0.9"
hex = "0.4"
jni = "0.21"
regex = "1"
sha2 = "0.10"
smartcore = "0.3"
walkdir = "2"
