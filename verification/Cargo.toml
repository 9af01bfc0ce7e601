[package]
name = "calc"
version = "0.1.0"
edition = "2021"

[dependencies]
termion = "1.5"
