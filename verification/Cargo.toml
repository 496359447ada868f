[package]
name = "hashsearch"
version = "0.1.0"
edition = "2021"
publish = false

[dependencies]
argh = "0.1"
crossbeam-channel = "0.5"
num_cpus = "1"
sha2 = "0.10"
