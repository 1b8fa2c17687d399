[package]
name = "gladius"
version = "0.1.0"
edition = "2021"
publish = false

[dependencies]
binary-heap-plus = "*"
i_overlay = "*"
serde = { version = "1", features = ["derive"] }
serde_json = "1"
deser-hjson = "*"
bincode = "1"
log = "*"
simple_logger = "*"
clap = { version = "4", features = ["derive"] }
nom_stl = "*"
