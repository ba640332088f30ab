[package]
name = "localization_mcap_visualizer"
version = "0.1.0"
edition = "2021"
publish = false

[dependencies]
clap = { version = "4", features = ["derive"] }
color-eyre = "0.6"
eframe = { version = "=0.33.3", default-features = false, features = ["wgpu", "x11"] }
egui_plot = { version = "=0.34.1", default-features = false }
image = { version = "0.25", default-features = false }
mcap = "=0.26.0"
nalgebra = "=0.35.0"
serde = { version = "1", features = ["derive"] }
serde_json = "1"
tracing = "0.1"
tracing-subscriber = { version = "0.3", features = ["env-filter"] }
