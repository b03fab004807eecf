[package]
name = "haas_effect"
version = "0.1.0"
edition = "2021"
publish = false

[dependencies]
rtrb = "0.3"
enum-iterator = "2"
