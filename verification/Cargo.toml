[package]
name = "gridworld"
version = "0.1.0"
edition = "2021"
publish = false

[dependencies]
slab = "0.4"
rectangle-pack = "0.4"
glam = "*"
float_next_after = "*"
rand = "0.8"
serde = { version = "1", features = ["derive"] }
serde_json = "1"
image = { version = "*", default-features = false, features = ["png"] }
