[package]
name = "xsynth"
version = "0.1.0"
edition = "2021"
publish = false

[dependencies]
biquad = "*"
crossbeam-channel = "0.5"
encoding_rs = "0.8"
encoding_rs_io = "0.1"
fundsp = "0.20"
memmap2 = "0.9"
rayon = "1"
rubato = "0.16"
soundfont = "*"
symphonia = { version = "0.5", features = ["all"] }
thiserror = "1"
