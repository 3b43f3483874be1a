[package]
name = "ncli"
version = "0.1.0"
edition = "2021"
publish = false

[dependencies]
base64 = "*"
crossterm = "*"
dotenv = "*"
fuzzy-matcher = "*"
indexmap = "*"
notion = "*"
reqwest = { version = "*", default-features = false, features = ["json", "rustls-tls"] }
rouille = "*"
rusqlite = { version = "*", features = ["bundled"] }
serde = { version = "*", features = ["derive"] }
serde_json = "*"
tokio = { version = "*", features = ["rt-multi-thread", "macros", "time"] }
webbrowser = "*"
