[package]
name = "untex"
version = "0.1.0"
edition = "2021"
publish = false

[dependencies]
clap = { version = "4", features = ["derive"] }
clap_complete = "4"
is-terminal = "*"
termcolor = "1"
thiserror = "*"
wild = "2"
