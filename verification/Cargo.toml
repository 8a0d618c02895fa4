[package]
name = "tetris"
version = "0.1.0"
edition = "2021"
publish = false

[dependencies]
bitvec = "1"
crossterm = "0.29"
itertools = "0.14"
rand = "0.9"
