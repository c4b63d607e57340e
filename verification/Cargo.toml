[package]
name = "softrender"
version = "0.1.0"
edition = "2021"
publish = false

[dependencies]
smallvec = "1"
nalgebra = "*"
num-traits = "0.2"
num_cpus = "1"
rayon = "1"
scoped_threadpool = "0.1"
parking_lot = "*"
failure = "0.1"
