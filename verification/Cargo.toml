[package]
name = "litedasm"
version = "0.1.0"
edition = "2021"
publish = false

[dependencies]
anyhow = "1"
clap = { version = "4", features = ["derive"] }
clap_complete = "4"
console = "*"
log = "0.4"
ron = "*"
rustyline = "*"
serde = { version = "1", features = ["derive"] }
shell-words = "1"
shellexpand = "*"
simple_logger = "*"
thiserror = "1"
