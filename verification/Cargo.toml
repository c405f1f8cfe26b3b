[package]
name = "modsynth"
version = "0.1.0"
edition = "2021"
publish = false

[dependencies]
anyhow = "1"
argh = "0.1"
cpal = "0.13"
rand = "0.8"
termion = "1.5"
tui = "0.19"
wav = "1"
