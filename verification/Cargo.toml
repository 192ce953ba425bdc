[package]
name = "hdf5"
version = "0.1.0"
edition = "2021"
publish = false

[dependencies]
memmap = "0.7"
nom = { version = "5", default-features = false, features = ["std"] }
