[package]
name = "trackspeedtest"
version = "0.1.0"
edition = "2021"
publish = false

[dependencies]
chrono = "0.4"
clap = "2"
csv = "1"
derivative = "2"
lettre = "0.11"
rev_lines = "0.3"
serde = { version = "1", features = ["derive"] }
serde_json = "1"
which = "*"
