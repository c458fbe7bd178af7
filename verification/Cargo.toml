[package]
name = "sway_balance"
version = "0.1.0"
edition = "2021"
publish = false

[dependencies]
swayipc = "*"
clap = "*"
thiserror = "*"
