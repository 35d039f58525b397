[package]
name = "craft_selfplay"
version = "0.1.0"
edition = "2021"
publish = false

[dependencies]
xorshift = "=0.1.3"
argh = "=0.1.19"
bincode = "=1.3.3"
bzip2 = "=0.6.1"
rand = "=0.6.5"
serde = { version = "=1.0.229", features = ["derive"] }
ulid = "=3.0.0"
