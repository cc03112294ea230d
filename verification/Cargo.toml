[package]
name = "dbx-ignore"
version = "0.1.0"
edition = "2021"
publish = false

[dependencies]
anyhow = "1"
chrono = { version = "0.4", features = ["serde"] }
clap = "4"
colored = "2"
ctrlc = "3"
git2 = { version = "0.19", default-features = false }
glob = "0.3"
ignore = "0.4"
indicatif = "0.17"
notify = "6"
rayon = "1"
serde = { version = "1", features = ["derive"] }
serde_json = "1"
tempfile = "3"
tokio = { version = "1", features = ["rt-multi-thread", "macros", "sync", "time"] }
xattr = "1"
