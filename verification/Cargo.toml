[package]
name = "expr"
version = "0.1.0"
edition = "2021"

[dependencies]
map_in_place = "=0.1.0"
sparse_vec = "=0.1.0"
