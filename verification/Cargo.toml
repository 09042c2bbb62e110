[package]
name = "cmail"
version = "0.1.0"
edition = "2021"
publish = false

[dependencies]
chan = "0.1"
chan-signal = "*"
docopt = "0.6"
rustc-serialize = "0.3"
