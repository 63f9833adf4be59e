[package]
name = "runix"
version = "0.1.0"
edition = "2021"
publish = false

[dependencies]
chrono = { version = "0.4", default-features = false, features = ["std", "serde"] }
derive_more = "0.99"
once_cell = "1"
regex = "1"
serde = { version = "1", features = ["derive"] }
thiserror = "1"
url = { version = "2", features = ["serde"] }
