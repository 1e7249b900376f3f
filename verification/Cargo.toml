[package]
name = "dhe"
version = "0.1.0"
edition = "2021"
publish = false

[dependencies]
anyhow = "1"
arboard = "3"
clap = { version = "4", features = ["derive"] }
evdev = "0.12"
homedir = "0.2"
lingua = { version = "1", default-features = false, features = ["english", "russian"] }
mio = { version = "0.8", features = ["os-poll", "os-ext"] }
notify-rust = { version = "4", features = ["async"] }
rand = "0.8"
reqwest = { version = "0.11", default-features = false, features = ["rustls-tls"] }
scraper = "0.17"
serde = { version = "1", features = ["derive"] }
strum = { version = "0.25", features = ["derive"] }
thiserror = "1"
time = { version = "0.3", features = ["parsing", "formatting"] }
tokio = { version = "1", features = ["macros", "rt-multi-thread", "time"] }
toml = "0.7"
tracing = "0.1"
tracing-subscriber = "0.3"
