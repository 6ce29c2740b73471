[package]
name = "growth_means"
version = "0.1.0"
edition = "2021"
publish = false

[dependencies]
math = "=0.0.2"
rand = "=0.8.8"
rand_distr = "=0.4.3"
