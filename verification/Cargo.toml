[package]
name = "minecrust"
version = "0.1.0"
edition = "2021"
publish = false

[dependencies]
nalgebra = "0.17"
alga = "0.8"
specs = "0.14"
specs-derive = "0.4"
winit = "0.18"
ash = "0.27"
failure = "0.1"
failure_derive = "0.1"
bitflags = "1"
num-traits = "0.2"
freetype = "0.4"
