[package]
name = "gcc_builder"
version = "0.1.0"
edition = "2021"
publish = false

[dependencies]
gccjit = { version = "=7.3.0", features = ["master"] }
rustc_data_structures = "=0.1.2"
rustc_span = "=0.1.2"
