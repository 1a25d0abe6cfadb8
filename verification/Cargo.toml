[package]
name = "sysup"
version = "0.1.0"
edition = "2021"
publish = false

[dependencies]
sys-info = "=0.9.1"
