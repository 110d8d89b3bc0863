[package]
name = "diffr_cli"
version = "0.1.0"
edition = "2021"
publish = false

[dependencies]
termcolor = "1"
clap = "2"
atty = "0.2"
