[package]
name = "dev_server"
version = "0.1.0"
edition = "2021"
publish = false

[dependencies]
dunce = "1"
log = "0.4"
simple_logger = "*"
structopt = "0.3"
