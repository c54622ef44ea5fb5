[package]
name = "marzipan"
version = "0.1.0"
edition = "2021"
publish = false

[dependencies]
itertools = "=0.10.5"
num-traits = "0.2"
serde = { version = "=1.0.229", features = ["derive"] }

[dev-dependencies]
nom = "=7.1.3"
rand = "=0.8.8"
