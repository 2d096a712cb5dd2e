[package]
name = "take_slicer"
version = "0.1.0"
edition = "2021"
publish = false

[dependencies]
anyhow = "=1.0.104"
clap = { version = "=4.6.7", features = ["derive"] }
crossterm = "=0.29.0"
csv = "=1.4.0"
log = "=0.4.34"
rayon = "=1.12.0"
serde = { version = "=1.0.229", features = ["derive"] }
serde_json = "=1.0.154"
stderrlog = "=0.6.0"
symphonia = "=0.5.5"
