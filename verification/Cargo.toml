[package]
name = "control_panel_core"
version = "0.1.0"
edition = "2021"
publish = false

[dependencies]
russh = "*"
russh-keys = "*"
ssh-key = "*"
base64 = "*"
chrono = "*"
tokio = { version = "*", features = ["full"] }
serde = { version = "*", features = ["derive"] }
toml = "*"
async-trait = "*"
