[package]
name = "xdpsock"
version = "0.1.0"
edition = "2021"
publish = false

[dependencies]
bitflags = "=1.3.2"
crossbeam-channel = "=0.5.17"
errno = "=0.2.8"
libbpf-sys = { version = "=0.8.3", default-features = false, features = ["novendor"] }
libc = "=0.2.191"
log = "=0.4.35"

[dev-dependencies]
rand = "=0.8.8"
