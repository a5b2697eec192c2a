[package]
name = "unicode_prettytable"
version = "0.3.1"
edition = "2021"
publish = false

[dependencies]
clap = "2"
derive_builder = "0.9"
smart-default = "0.6"
