[package]
name = "radar"
version = "0.1.0"
edition = "2021"
publish = false

[dependencies]
adsb_deku = "=0.7.1"
clap = { version = "=3.2.25", features = ["derive"] }
crossterm = "=0.25.0"
hex = "=0.4.3"
rayon = "=1.12.0"
tui = "=0.19.0"
