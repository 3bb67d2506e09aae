[package]
name = "recombox_subtitle_provider"
version = "0.1.0"
edition = "2021"
publish = false

[dependencies]
visdom = "*"
html-escape = "*"
snowid = "*"
serde = { version = "1", features = ["derive"] }
serde_json = "1"
anyhow = "1"
once_cell = "1"
walkdir = "2"
futures-util = "0.3"
tokio = { version = "1", features = ["rt-multi-thread", "macros", "fs", "io-util", "sync"] }
tokio-rusqlite = { version = "*", features = ["bundled"] }
reqwest = { version = "*", default-features = false, features = ["json", "stream", "rustls-tls"] }
zip = { version = "*", default-features = false, features = ["deflate"] }
