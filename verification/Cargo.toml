[package]
name = "rupub"
version = "0.1.0"
edition = "2021"
publish = false

[dependencies]
scraper = "*"
epub = "2"
ratatui = "0.29"
crossterm = "0.28"
ratatui-image = "8"
image = "0.25"
color-eyre = "0.6"
