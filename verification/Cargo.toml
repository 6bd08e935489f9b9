[package]
name = "mini_engine"
version = "0.1.0"
edition = "2021"
publish = false

[dependencies]
anyhow = "1"
glium = "0.32"
glm = "0.2"
log = "0.4"
num = "0.1"
uuid = { version = "1", features = ["v4"] }
