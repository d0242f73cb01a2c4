[package]
name = "tmuxtui"
version = "0.2.1"
edition = "2021"
publish = false

[dependencies]
anyhow = "1"
crossterm = "0.28"
ratatui = "0.29"
dirs = "6"
