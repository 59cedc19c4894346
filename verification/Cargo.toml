[package]
name = "tendril"
version = "0.1.0"
edition = "2021"
publish = false

[dependencies]
regex = "=1.13.1"
urlencoding = "=2.1.3"
chrono = "=0.4.45"
directories = "=6.0.0"
toml = "=1.1.8"
serde = { version = "=1.0.229", features = ["derive"] }
serde_json = "=1.0.154"
bincode = "=1.3.3"
tokio = { version = "=1.54.1", features = ["fs", "rt-multi-thread", "macros", "time", "sync"] }
rpassword = "=5.0.1"
compression = "=0.1.5"
