[package]
name = "first_move"
version = "0.1.0"
edition = "2021"
publish = false

[dependencies]
shakmaty = "=0.15.3"
pgn-reader = "=0.15.0"
maud = "=0.27.0"
clap = "=2.34.0"
