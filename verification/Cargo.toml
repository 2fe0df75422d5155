[package]
name = "incognitus"
version = "0.1.0"
edition = "2021"
publish = false

[dependencies]
bytemuck = "=1.25.2"
pinocchio = { version = "=0.12.0", features = ["account-resize", "cpi"] }
pinocchio-system = "=0.7.0"
