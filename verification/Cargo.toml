[package]
name = "ism2"
version = "0.1.0"
edition = "2021"
publish = false

[dependencies]
clap = "=2.34.0"
half = "=1.8.3"
png = "=0.15.3"
rgb = "=0.8.53"
