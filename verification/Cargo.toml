[package]
name = "subgit_sync"
version = "0.1.0"
edition = "2021"
publish = false

[dependencies]
hex = "*"
chrono = "*"
git2 = { version = "*", default-features = false }
rusqlite = { version = "*", features = ["bundled"] }
serde = { version = "1", features = ["derive"] }
serde_json = "1"
structopt = "*"
fs2 = "*"
libc = "*"
nix = { version = "*", features = ["process"] }
log = "*"
simplelog = "*"
log-panics = "*"
failure = "*"
