[package]
name = "txnsched"
version = "0.1.0"
edition = "2021"
publish = false

[dependencies]
mio = "0.6"
log = "=0.4.35"
quick-error = "=1.2.3"
