[package]
name = "radio_ml"
version = "0.1.0"
edition = "2021"
publish = false

[dependencies]
abd-clam = "=0.10.1"
hdf5 = "0.8"
ndarray = "0.15"
ndarray-rand = "0.14"
rand = "0.8"
rand_chacha = "0.3"
rand_core = "0.6"
