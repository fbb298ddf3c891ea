[package]
name = "dsp4rust"
version = "0.1.0"
edition = "2021"

[dependencies]
ndarray = "0.16"
ndarray-rand = "0.15"
ndarray-stats = "0.6"
num-traits = "0.2"
thiserror = "1"
