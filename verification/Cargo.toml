[package]
name = "orbital_ephemeris_message"
version = "0.1.0"
edition = "2021"
publish = false

[dependencies]
chrono = "*"
error-chain = "*"
polars = "*"
reqwest = { version = "*", default-features = false, features = ["rustls-tls"] }
tempfile = "*"
tokio = { version = "*", features = ["macros", "rt-multi-thread"] }
