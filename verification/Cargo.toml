[package]
name = "egg_herbie"
version = "0.1.0"
edition = "2021"
publish = false

[dependencies]
egg = "0.9"
log = "0.4"
num-bigint = "0.4"
num-integer = "0.1"
num-rational = "0.4"
num-traits = "0.2"
