[package]
name = "dnsaur"
version = "0.1.0"
edition = "2021"
publish = false

[dependencies]
bstr = "1"
domain = { version = "0.10", features = ["std"] }
fastrand = "2"
memchr = "2"
monoio = "0.2"
snafu = "0.8"
local-sync = "0.1"
file-header = "0.1"
globset = "0.4"
