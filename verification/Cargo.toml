[package]
name = "offline-scrobbler"
version = "0.1.0"
edition = "2021"
publish = false

[dependencies]
anyhow = "1"
atty = "0.2"
clap = { version = "4", features = ["derive"] }
directories = "5"
env_logger = "0.10"
humantime = "2"
log = "0.4"
md5 = "0.7"
reqwest = { version = "0.11", default-features = false, features = ["blocking", "json", "rustls-tls"] }
serde = { version = "1", features = ["derive"] }
serde_json = "1"
thiserror = "1"
time = { version = "0.3", features = ["formatting", "local-offset", "macros"] }
toml = "0.7"
url = "2"
urlencoding = "2"
xmltree = "0.10"
