[package]
name = "wqms"
version = "0.1.0"
edition = "2021"
publish = false

[dependencies]
anyhow = "1"
chrono = "0.4"
regex = "1"
serde = { version = "1", features = ["derive"] }
toml = "0.5"
structopt = "0.3"
log = "0.4"
rand = "0.8"
rand_distr = "0.4"
lazy_static = "1"
crossbeam = "0.8"
ctrlc = "3"
