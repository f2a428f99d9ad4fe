[package]
name = "stt_bot"
version = "0.1.0"
edition = "2021"
publish = false

[dependencies]
serde_json = "1"
base64 = "=0.22.1"
uuid = { version = "1", features = ["v4"] }
chrono = { version = "0.4", default-features = false, features = ["clock"] }
teloxide = { version = "=0.12.2", default-features = false, features = ["macros", "rustls", "ctrlc_handler"] }
# Pinned only to steer resolution: teloxide-core wants takecell "0.1", and the
# newest patch (0.1.2) needs a newer rustc than this toolchain provides.
takecell = "=0.1.1"
tokio = { version = "1", features = ["macros", "rt-multi-thread", "sync", "fs", "io-util", "process", "time"] }
reqwest = { version = "=0.11.27", default-features = false, features = ["json", "multipart", "rustls-tls"] }
warp = { version = "=0.3.7", default-features = false }
dotenvy = "0.15"
env_logger = { version = "=0.10.2", default-features = false }
log = "0.4"
dptree = "=0.3.0"
thiserror = "1"
serde = { version = "1", features = ["derive"] }
tempfile = "3"
