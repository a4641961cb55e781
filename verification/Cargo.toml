[package]
name = "recursion_core"
version = "0.1.0"
edition = "2021"
publish = false

[dependencies]
p3-baby-bear = "=0.8.0"
p3-poseidon2 = "=0.8.0"
p3-field = "=0.8.0"
p3-symmetric = "=0.8.0"

[dev-dependencies]
p3-challenger = "=0.8.0"
