[package]
name = "porky_mdns"
version = "0.1.0"
edition = "2021"
publish = false
