[package]
name = "pictor_kernels"
version = "0.1.0"
edition = "2021"
publish = false

[dependencies]
half = "2"
rayon = "1"
thiserror = "2"
tracing = "0.1"
scirs2-core = { version = "*", default-features = false, features = ["gpu"] }
metal = "*"
objc = "0.2"
