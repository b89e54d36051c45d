[package]
name = "meroshare"
version = "0.1.0"
edition = "2021"
publish = false

[dependencies]
async-recursion = "1"
indicatif = "*"
lazy_static = "1"
prettytable-rs = "*"
reqwest = { version = "*", default-features = false, features = ["json", "rustls-tls"] }
serde = { version = "1", features = ["derive"] }
serde_json = "1"
tempfile = "3"
thousands = "*"
tokio = { version = "1", features = ["macros", "rt-multi-thread", "sync"] }
