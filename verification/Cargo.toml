[package]
name = "turm"
version = "0.1.0"
edition = "2021"
publish = false

[dependencies]
crossbeam = "0.8"
crossterm = "0.29"
ratatui = "0.30"
regex = "1"
tui-input = "*"
