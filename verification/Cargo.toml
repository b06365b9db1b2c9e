[package]
name = "wallet_explorer"
version = "0.1.0"
edition = "2021"
publish = false

[dependencies]
cursive = "*"
cursive_tree_view = "*"
serde = { version = "*", features = ["derive"] }
serde_yaml = "*"
