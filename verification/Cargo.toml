[package]
name = "mujmap"
version = "0.1.0"
edition = "2021"
publish = false

[dependencies]
atty = "0.2"
fslock = "0.2"
indicatif = "0.17"
log = "0.4"
notmuch = "0.8"
rayon = "1"
serde = { version = "1", features = ["derive"] }
serde_json = "1"
symlink = "0.1"
termcolor = "1"
thiserror = "1"
