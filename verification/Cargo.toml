[package]
name = "chess_rules"
version = "0.1.0"
edition = "2021"
publish = false

[dependencies]
board-game-traits = "=0.1.0"
pgn-traits = "=0.1.1"
serde = { version = "=1.0.229", features = ["derive"] }
