[package]
name = "spcplay"
version = "0.1.0"
edition = "2021"
publish = false

[dependencies]
anyhow = "1.0"
cpal = "0.13"
directories = "4.0"
eframe = "0.15"
rfd = "0.5"
rusqlite = "0.26"
spc = "*"
