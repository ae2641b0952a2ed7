[package]
name = "epicycles"
version = "0.1.0"
edition = "2021"
publish = false

[dependencies]
csv = "1"
euclid = "0.22"
image = { version = "0.24", default-features = false, features = ["png"] }
serde = { version = "1", features = ["derive"] }
structopt = "0.3"
