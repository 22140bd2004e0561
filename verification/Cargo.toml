[package]
name = "hyprland_workspaces"
version = "0.1.0"
edition = "2021"
publish = false

[dependencies]
hyprland = "*"
serde = { version = "1", features = ["derive"] }
serde_json = "1"
flexi_logger = "*"
log = "*"
