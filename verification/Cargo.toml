[package]
name = "involute_helicoid"
version = "0.1.0"
edition = "2021"
publish = false

[dependencies]
quaternion-core = "*"
