[package]
name = "discrete_derivative"
version = "0.1.0"
edition = "2021"
publish = false

[dev-dependencies]
float-cmp = "*"
