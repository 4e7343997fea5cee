[package]
name = "golem_rib"
version = "0.1.0"
edition = "2021"
publish = false

[dependencies]
bincode = "2"
combine = "4"
serde = { version = "1", features = ["derive"] }
