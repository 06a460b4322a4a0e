[package]
name = "scalar_products"
version = "0.1.0"
edition = "2021"

[dependencies]
num_cpus = "1"
rayon = "1"
