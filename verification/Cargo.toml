[package]
name = "qsc_partial_eval"
version = "0.1.0"
edition = "2021"
publish = false

[dependencies]
miette = "5"
rustc-hash = "1"
thiserror = "1"
