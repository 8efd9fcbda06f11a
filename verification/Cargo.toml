[package]
name = "public_input_prover"
version = "0.1.0"
edition = "2021"
publish = false

[dependencies]
ark-ec = "=0.3.0"
ark-ff = "=0.3.0"
ark-poly = "=0.3.0"
ark-pallas = "=0.3.0"
rand = "=0.8.8"
