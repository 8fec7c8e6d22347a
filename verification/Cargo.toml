[package]
name = "minic"
version = "0.1.0"
edition = "2021"
publish = false

[dependencies]
env_logger = "*"
lalrpop-util = { version = "*", default-features = false }
log = "*"
logos = "*"
structopt = "0.3"
