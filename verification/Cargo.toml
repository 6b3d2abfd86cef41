[package]
name = "bed2gff"
version = "0.1.0"
edition = "2021"
publish = false

[dependencies]
chrono = "*"
clap = "*"
colored = "*"
indoc = "*"
log = "*"
natord = "*"
peak_alloc = "*"
simple_logger = "*"
