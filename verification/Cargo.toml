[package]
name = "lla"
version = "0.1.0"
edition = "2021"
publish = false

[dependencies]
fuzzy-matcher = "=0.3.7"
regex = "=1.13.1"
glob = "=0.3.4"
rayon = "=1.12.0"
crossterm = "=0.27.0"
crossbeam-channel = "=0.5.17"
ignore = "=0.4.33"
num_cpus = "=1.17.0"
colored = "=2.2.0"
dirs = "=5.0.1"
serde = { version = "=1.0.229", features = ["derive"] }
toml = "=0.8.23"
chrono = "=0.4.45"
parking_lot = "=0.12.5"
clap = "=3.2.25"
clap_complete = "=3.2.5"
unicode-width = "0.1"
strip-ansi-escapes = "0.2"
serde_json = "1"
csv = "1"
zip = { version = "0.6", default-features = false, features = ["deflate"] }
tar = "0.4"
flate2 = "1"
users = "0.11"
terminal_size = "0.3"
