[package]
name = "state_machine"
version = "0.1.0"
edition = "2021"
publish = false

[dependencies]
humantime = "2"
once_cell = "1"
rand = "0.8"
rayon = "1"
serde = { version = "1", features = ["derive"] }
serde_json = "1"
structopt = "0.3"
tracing = "0.1"
