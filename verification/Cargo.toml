[package]
name = "ferrocopy"
version = "0.1.0"
edition = "2021"
publish = false

[dependencies]
crossbeam-channel = "0.5"
blake3 = "1"
xxhash-rust = { version = "0.8", features = ["xxh3"] }
num_cpus = "1"
anyhow = "1"
clap = { version = "4", features = ["derive"] }
tokio = { version = "1", features = ["rt", "rt-multi-thread", "io-util", "sync", "fs", "time", "macros", "net"] }
walkdir = "2"
filetime = "0.2"
serde = { version = "1", features = ["derive"] }
serde_json = "1"
toml = "0.8"
dirs = "5"
tracing = "0.1"
tracing-subscriber = { version = "0.3", features = ["env-filter"] }
indicatif = "0.17"
humansize = "2"
notify = "7"
notify-debouncer-full = "0.4"
ctrlc = "3"
mlua = { version = "0.10", features = ["lua54", "vendored"] }
ssh2 = { version = "0.9", features = ["vendored-openssl"] }
taffy = "0.6"
egui = "0.29"
arboard = "3"
