[package]
name = "clawsh"
version = "0.1.0"
edition = "2021"
publish = false

[dependencies]
anyhow = "1"
faccess = "0.2"
rustyline = { version = "*", features = ["derive"] }
thiserror = "*"
