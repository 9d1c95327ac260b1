[package]
name = "fsearch"
version = "0.1.0"
edition = "2021"
publish = false

[dependencies]
zip = { version = "*", default-features = false }
ignore = "*"
rayon = "*"
num_cpus = "*"
dialoguer = "*"
indicatif = "*"
termcolor = "*"
terminal-emoji = "*"
