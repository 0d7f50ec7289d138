[package]
name = "copperline"
version = "0.1.0"
edition = "2021"
publish = false

[dependencies]
encoding = "=0.2.33"
unicode-segmentation = "=1.13.3"
unicode-width = "=0.1.14"
libc = "=0.2.190"
nix = { version = "=0.29.0", features = ["fs", "term"] }
