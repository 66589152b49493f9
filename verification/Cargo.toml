[package]
name = "amethyst_editor_sync"
version = "0.1.0"
edition = "2021"
publish = false

[dependencies]
amethyst = { version = "0.15.3", default-features = false }
crossbeam-channel = "0.5"
log = "0.4"
serde = { version = "1", features = ["derive"] }
serde_json = "1"
