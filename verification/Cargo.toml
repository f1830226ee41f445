[package]
name = "anti_sniping"
version = "0.1.0"
edition = "2021"
publish = false

[dependencies]
bitcoind = "*"
miniscript = "*"
rand = "*"
