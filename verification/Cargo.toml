[package]
name = "dirsize"
version = "0.1.0"
edition = "2021"
publish = false

[dependencies]
anyhow = "1"
chrono = "0.4"
crossterm = "0.28"
humansize = "2"
ratatui = "0.29"
rayon = "1"
thousands = "0.2"
walkdir = "2"
