[package]
name = "opmark_egui"
version = "0.1.0"
edition = "2021"
publish = false

[dependencies]
clap = { version = "=3.2.25", features = ["derive"] }
eframe = "=0.16.0"
image = "=0.23.14"
opmark = "=0.0.3"
