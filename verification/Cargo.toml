[package]
name = "textmesh"
version = "0.1.0"
edition = "2021"
publish = false

[dependencies]
async-std = "=1.13.2"
font-kit = "=0.14.3"
harfbuzz_rs = "=2.0.1"
lazy_static = "=1.5.1"
nalgebra = "=0.26.2"
pathfinder_geometry = "=0.5.1"
shipyard = "=0.5.0"
unic-char-range = "=0.9.0"
unic-ucd-block = "=0.9.0"
vulkano = "0.24"
vulkano-shaders = "0.24"
vulkano-win = "0.24"
winit = "0.25"
