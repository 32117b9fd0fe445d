[package]
name = "elapsed"
version = "0.1.0"
edition = "2021"
publish = false

[dependencies]
cfg-if = "*"
lexopt = "*"
pty-process = { version = "*", features = ["async"] }
terminal_size = "*"
thiserror = "*"
tokio = { version = "*", features = ["io-util", "macros", "process", "rt", "signal", "time"] }
