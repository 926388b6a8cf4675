[package]
name = "developable"
version = "0.1.0"
edition = "2021"
publish = false

[dependencies]
glam = "*"
clap = { version = "4", features = ["derive"] }
miniserde = "*"
fast_ode = "*"
