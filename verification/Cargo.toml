[package]
name = "tuiermo"
version = "0.1.0"
edition = "2021"
publish = false

[dependencies]
unidecode = "=0.3.0"
tui = "=0.19.0"
crossterm = "=0.23.2"
tui-input = "=0.4.2"
