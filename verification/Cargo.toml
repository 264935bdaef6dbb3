[package]
name = "rouge_civ"
version = "0.1.0"
edition = "2021"
publish = false

[dependencies]
noise = "=0.6.0"
rand = "=0.7.3"
tcod = "=0.15.0"
