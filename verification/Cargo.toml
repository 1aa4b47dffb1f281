[package]
name = "cita_shell"
version = "0.1.0"
edition = "2021"
publish = false

[dependencies]
ansi_term = "0.11"
clap = "2"
linefeed = "0.5"
shell-words = "0.1"
