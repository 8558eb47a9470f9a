[package]
name = "rust_rpg"
version = "0.1.0"
edition = "2021"
publish = false

[dependencies]
bracket-random = "=0.8.7"
weighted_rand = "=0.4.2"
pathfinding = "=4.16.0"
bracket-lib = { version = "=0.8.7", default-features = false, features = ["crossterm"] }
specs = { version = "=0.20.0", features = ["serde", "derive"] }
serde = { version = "=1.0.229", features = ["derive"] }
serde_json = "=1.0.154"
json5 = "=1.3.7"
log = "=0.4.35"
lazy_static = "=1.5.1"
uuid = { version = "=1.29.1", features = ["v4"] }
itertools = "=0.15.0"
simplelog = "*"
ldtk_map = "*"
