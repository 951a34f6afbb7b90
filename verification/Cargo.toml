[package]
name = "ami_workbench"
version = "0.1.0"
edition = "2021"
publish = false

[dependencies]
anyhow = "1"
cap-std = "*"
crossterm = "*"
notify = "*"
ratatui = "*"
rustix = { version = "*", features = ["fs"] }
trash = "*"
