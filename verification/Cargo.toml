[package]
name = "telnet_server"
version = "0.1.0"
edition = "2021"
publish = false

[dependencies]
env_logger = "=0.4.3"
futures = "=0.1.31"
libc = "=0.2.191"
log = "=0.3.9"
mio = "=0.6.23"
nix = "0.8"
pty = "=0.2.2"
tokio-core = "=0.1.18"
tokio-io = "=0.1.13"
