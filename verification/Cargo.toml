[package]
name = "dim"
version = "0.1.0"
edition = "2021"
publish = false

[dependencies]
anitomy = "=0.2.0"
axum = { version = "0.6", features = ["ws"] }
chrono = "=0.4.45"
fuzzy-matcher = "=0.3.7"
governor = "0.6"
ignore = "0.4"
md5 = "=0.7.0"
mp4 = "=0.14.0"
notify = "5"
rand = "=0.8.8"
reqwest = { version = "0.11", default-features = false, features = ["json"] }
rusty_vainfo = "*"
serde = { version = "1", features = ["derive"] }
serde_json = "1"
sqlx = { version = "0.6", features = ["runtime-tokio-rustls", "sqlite"] }
tokio = { version = "1", features = ["fs", "io-util", "macros", "net", "process", "rt-multi-thread", "sync", "time"] }
toml = "0.5"
torrent-name-parser = "=0.12.1"
url = "=2.5.8"
uuid = { version = "=1.29.0", features = ["v4"] }
