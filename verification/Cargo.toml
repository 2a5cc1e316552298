[package]
name = "evento"
version = "0.1.0"
edition = "2021"
publish = false

[dependencies]
serde = { version = "=1.0.229", features = ["derive"] }
serde_json = "=1.0.154"
serde_yaml = "=0.9.34"
sled = "=0.34.7"
uuid = { version = "=1.29.0", features = ["v4", "serde"] }
chrono = { version = "=0.4.45", features = ["serde"] }
dirs = "=5.0.1"
rand = "=0.8.8"
tokio = { version = "=1.54.1", features = ["full"] }
actix-web = { version = "=4.18.1", default-features = false, features = ["macros"] }
reqwest = { version = "=0.12.28", default-features = false, features = ["json"] }
sqlx = { version = "=0.7.4", default-features = false, features = ["runtime-tokio", "postgres", "uuid", "chrono"] }
anyhow = "=1.0.104"
clap = { version = "=4.6.7", features = ["derive"] }
tracing = "=0.1.44"
tracing-subscriber = "=0.3.23"
rskafka = "=0.5.0"
mcp-core = { version = "=0.1.50", features = ["sse"] }
async-trait = "=0.1.92"
