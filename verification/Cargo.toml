[package]
name = "fry"
version = "0.1.0"
edition = "2021"
publish = false

[dependencies]
num2words = "1"
num-bigfloat = "1"
once_cell = "1"
serde = { version = "1", features = ["derive"] }

[dev-dependencies]
regex = "1"
