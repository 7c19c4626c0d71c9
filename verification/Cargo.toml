[package]
name = "gpt2"
version = "0.1.0"
edition = "2021"
publish = false

[dependencies]
bytemuck = "1"
glob = "0.3"
rayon = "1"
