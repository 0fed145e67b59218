[package]
name = "blackjack"
version = "0.1.0"
edition = "2021"
publish = false

[dependencies]
fastrand = "=2.5.0"
ratatui = "=0.28.1"
crossterm = "=0.28.1"
tui-textarea = "=0.6.1"
