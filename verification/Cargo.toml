[package]
name = "quickshot"
version = "0.1.0"
edition = "2021"

[dependencies]
fuzzy-matcher = "0.3"
ratatui = "0.29"
