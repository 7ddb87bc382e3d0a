[package]
name = "combat_overlay"
version = "0.1.0"
edition = "2021"
publish = false

[dependencies]
anyhow = "*"
directories = "*"
egui = "*"
egui_plot = "*"
