[package]
name = "simple_id_memo"
version = "0.1.0"
edition = "2021"
publish = false

[dependencies]
clipboard = "0.5"
postcard = { version = "1", default-features = false, features = ["use-std"] }
serde = { version = "1", features = ["derive"] }
serde_cbor = "0.11"
