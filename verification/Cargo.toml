[package]
name = "ic_mple_structures"
version = "0.1.0"
edition = "2021"
publish = false

[dependencies]
ic-stable-structures = "0.7"
candid = "0.10"
serde = { version = "1", features = ["derive"] }
thiserror = "2"
