[package]
name = "slapdash"
version = "0.1.0"
edition = "2021"
publish = false

[dependencies]
anyhow = "1"
askama = "*"
axum = "0.8"
chrono = "0.4"
clap = { version = "4", features = ["derive"] }
quick-xml = { version = "*", features = ["serialize"] }
rand = "0.8"
regex = "1"
reqwest = { version = "0.12", default-features = false }
serde = { version = "1", features = ["derive"] }
serde_ini = "0.2"
sqlx = { version = "0.8", default-features = false, features = ["sqlite", "runtime-tokio", "chrono", "migrate"] }
time = "0.3"
tokio = { version = "1", features = ["macros", "rt-multi-thread", "net", "sync", "time"] }
tracing = "0.1"
