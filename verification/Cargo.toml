[package]
name = "tuisage"
version = "0.1.0"
edition = "2021"
publish = false

[dependencies]
clap = { version = "4", features = ["derive"] }
clap_usage = "2"
color-eyre = "0.6"
crossterm = "0.29"
nucleo-matcher = "0.3"
portable-pty = "0.9"
ratatui = "0.30"
ratatui-interact = "0.4"
ratatui-themes = "0.1"
tui-term = "0.3"
usage-lib = { version = "2", default-features = false }
vt100 = "0.16"
