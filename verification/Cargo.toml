[package]
name = "joycast"
version = "0.2.0"
edition = "2021"
publish = false

[dependencies]
anyhow = "1"
chrono = { version = "0.4", default-features = false, features = ["alloc", "now", "std"] }
clap = { version = "4", features = ["derive", "env"] }
dirs-next = "2"
evdev = { version = "0.13", features = ["tokio", "stream-trait"] }
futures = { version = "0.3", default-features = false, features = ["std"] }
gethostname = "1"
hex = "0.4"
iroh = { version = "1.4", default-features = false, features = ["tls-ring"] }
postcard = { version = "1", features = ["alloc"] }
serde = { version = "1", features = ["derive"] }
serde_json = "1"
tokio = { version = "1", features = ["io-util", "macros", "net", "rt-multi-thread", "sync", "time"] }
tracing = "0.1"
tracing-subscriber = { version = "0.3", features = ["env-filter"] }
