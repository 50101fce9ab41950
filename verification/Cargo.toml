[package]
name = "chariot"
version = "0.1.0"
edition = "2021"
publish = false

[dependencies]
anyhow = "1"
clap = { version = "4", features = ["derive", "env"] }
clap_complete = "4"
dialoguer = "*"
indicatif = "*"
log = "0.4"
mlua = { version = "*", features = ["lua54", "vendored"] }
nix = { version = "0.30", features = ["fs", "mount", "poll", "process", "sched", "user", "term"] }
rusqlite = { version = "*", features = ["bundled"] }
serde = { version = "1", features = ["derive"] }
serde_json = "1"
thiserror = "2"
toml = "*"
xxhash-rust = { version = "0.8", features = ["xxh3"] }
