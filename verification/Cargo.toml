[package]
name = "k_backup"
version = "0.1.0"
edition = "2021"
publish = false

[dependencies]
chrono = "0.4"
cron-parser = "*"
globset = "*"
indent = "*"
sanitize-filename = "*"
saturating_cast = "*"
zeroize = "1"
itertools = "*"
clap = { version = "4", features = ["derive"] }
serde = { version = "1", features = ["derive"] }
serde_yml = "*"
serde_with = { version = "3", features = ["base64"] }
humantime-serde = "1"
validator = { version = "*", features = ["derive"] }
tar = "0.4"
tempfile = "3"
rusqlite = { version = "*", features = ["backup", "bundled"] }
walkdir = "2"
rayon = "1"
lettre = "0.11"
liblzma = { version = "*", features = ["parallel"] }
age = "*"
tracing = "0.1"
tracing-subscriber = "0.3"
