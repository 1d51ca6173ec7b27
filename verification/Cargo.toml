[package]
name = "gsn_root"
version = "0.1.0"
edition = "2021"
publish = false

[dependencies]
sqlite = "*"
prettytable-rs = { version = "0.10.0", default-features = false }
epoll = "*"
unix_socket = "*"
