[package]
name = "gnvim"
version = "0.1.0"
edition = "2021"
publish = false

[dependencies]
nvim-rs = "*"
structopt = "0.3"
gtk = "0.15"
pangocairo = "0.15"
futures = "0.3"
async-trait = "0.1"
env_logger = "*"
log = "0.4"
pin-project = "1"
