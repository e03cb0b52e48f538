[package]
name = "line_fanout"
version = "0.1.0"
edition = "2021"
publish = false

[dependencies]
regex = "*"
clap = { version = "*", features = ["derive"] }
clap_complete = "*"
anstyle = "*"
env_logger = "*"
log = "*"
crossbeam = "*"
