[package]
name = "recording_encoder"
version = "0.1.0"
edition = "2021"
publish = false

[dependencies]
chrono = "0.4"
clap = { version = "4", features = ["derive"] }
convert_case = "*"
glob = "0.3"
regex = "1"
size = "*"
sorted-vec = "*"
tokio = { version = "1", features = ["fs", "io-util", "macros", "process", "rt", "rt-multi-thread", "sync"] }

[dev-dependencies]
nom = "7"
tempfile = "3"
