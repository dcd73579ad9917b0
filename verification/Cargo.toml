[package]
name = "f1_editor"
version = "0.1.0"
edition = "2021"
publish = false

[dependencies]
ropey = "1.6"
crossterm = "0.28"
ratatui = "0.29"
portable-pty = "0.8"
vte = "0.13"
