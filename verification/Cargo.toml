[package]
name = "grep"
version = "0.1.0"
edition = "2021"
publish = false

[dependencies]
anyhow = "*"
clap = { version = "*", features = ["derive"] }
colored = "*"
futures = "*"
glob = "*"
rayon = "*"
regex = "*"
tokio = { version = "*", features = ["fs", "io-std", "io-util", "macros", "rt", "rt-multi-thread"] }
