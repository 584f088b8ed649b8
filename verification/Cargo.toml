[package]
name = "sherlock"
version = "0.1.0"
edition = "2021"
publish = false

[dependencies]
glob = "*"
levenshtein = "*"
regex = "*"
serde = { version = "1", features = ["derive"] }
serde_json = "1"
toml = "*"
nix = { version = "*", features = ["signal", "process"] }
procfs = "*"
