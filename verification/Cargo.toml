[package]
name = "fluent_routes"
version = "0.1.0"
edition = "2021"
publish = false

[dependencies]
tide = "0.16"
async-std = "1"
log = "0.4"
