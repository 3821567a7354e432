[package]
name = "remcmd_app"
version = "0.1.0"
edition = "2021"
publish = false

[dependencies]
secrecy = "0.10"
fluent-bundle = "*"
directories = "*"

[dev-dependencies]
tempfile = "3"
