[package]
name = "dart_parser"
version = "0.1.0"
edition = "2021"
publish = false

[dependencies]
nom = "7"
clap = { version = "4", features = ["derive", "cargo"] }
tokio = { version = "1", features = ["rt", "macros", "fs", "sync"] }
rayon = "1"
futures = "0.3"
memmap2 = "0.9"
