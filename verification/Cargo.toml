[package]
name = "oxideav-core"
version = "0.1.31"
edition = "2021"
publish = false

[dependencies]
linkme = "0.3"
