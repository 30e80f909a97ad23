[package]
name = "todo"
version = "0.1.0"
edition = "2021"
publish = false

[dependencies]
chrono = "0.4"
chrono-english = "0.1"
clap = "*"
dirs = "*"
prettytable-rs = "*"
termion = "*"
