[package]
name = "drip_mailer"
version = "0.1.0"
edition = "2021"
publish = false

[dependencies]
anyhow = "1"
chrono = "0.4"
clap = { version = "4", features = ["derive"] }
env_logger = "*"
lettre = { version = "=0.11.23", features = ["tokio1", "tokio1-native-tls"] }
log = "*"
oauth2 = "=5.0.0"
once_cell = "*"
reqwest = { version = "=0.12.28", features = ["json"] }
reqwest_dav = "=0.3.3"
serde = { version = "1", features = ["derive"] }
serde_json = "1"
tokio = { version = "1", features = ["macros", "rt-multi-thread", "fs", "time"] }
toml = "*"
url_encor = "=1.0.3"
