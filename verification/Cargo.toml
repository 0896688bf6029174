[package]
name = "xaio"
version = "0.1.0"
edition = "2021"
publish = false

[dependencies]
rustc-hash = "2"
num = "0.4"
page_size = "0.6"
libc = "0.2"
log = "0.4"
socket2 = "0.5"
uring-sys2 = "*"

[dev-dependencies]
rand = "0.8"
