[package]
name = "cyan"
version = "0.1.0"
edition = "2021"
publish = false

[dependencies]
globset = "0.4"
chrono = { version = "0.4", default-features = false, features = ["clock", "std"] }
serde = { version = "1", features = ["derive"] }
serde_json = "1"
dirs = "5"
regex = "1"
anyhow = "1"
thiserror = "1"
tracing = "0.1"
async-trait = "0.1"
futures = "0.3"
tokio = { version = "1", features = ["rt-multi-thread", "macros", "process", "io-util", "sync", "time", "fs"] }
reqwest = { version = "0.12", default-features = false, features = ["json", "stream", "rustls-tls"] }
sqlx = { version = "0.8", default-features = false, features = ["runtime-tokio", "sqlite", "macros", "migrate"] }
git2 = { version = "0.19", default-features = false }
zip = { version = "2", default-features = false, features = ["deflate"] }
image = { version = "0.25", default-features = false, features = ["png"] }
tempfile = "3"

[dev-dependencies]
