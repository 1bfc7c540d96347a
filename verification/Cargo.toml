[package]
name = "ku_syntax"
version = "0.1.0"
edition = "2021"
publish = false

[dependencies]
arraydeque = "0.5"
bimap = "0.6"
once_cell = "1"
regex = "1"
