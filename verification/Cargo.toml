[package]
name = "resub"
version = "0.1.0"
edition = "2021"
publish = false

[dependencies]
argparse = "=0.2.2"
colored = "=2.2.0"
hex = "=0.4.3"
regex = "=1.13.1"
