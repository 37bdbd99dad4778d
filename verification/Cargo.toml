[package]
name = "tictactoe_engine"
version = "0.1.0"
edition = "2021"
publish = false

[dependencies]
image = "0.24"
serenity = "0.12"
tokio = { version = "1", features = ["rt-multi-thread", "macros"] }
