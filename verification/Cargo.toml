[package]
name = "git_cryptx"
version = "0.1.0"
edition = "2021"
publish = false

[dependencies]
aes-gcm = "=0.10.3"
sha2 = "=0.10.9"
fluent-bundle = "=0.16.0"
unic-langid = "=0.9.6"
toml = "=1.1.7"
