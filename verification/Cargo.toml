[package]
name = "vigy"
version = "0.1.0"
edition = "2021"
publish = false

[dependencies]
blake3 = "=1.8.7"
uuid = { version = "=1.29.0", features = ["v7"] }
time = { version = "=0.3.55", features = ["formatting", "parsing"] }
serde = { version = "=1.0.229", features = ["derive"] }
serde_json = "=1.0.154"
thiserror = "=2.0.21"
anyhow = "=1.0.104"
tokio = { version = "=1.54.1", features = ["full"] }
tracing = "=0.1.44"
tracing-subscriber = { version = "=0.3.23", features = ["env-filter"] }
clap = { version = "=4.6.7", features = ["derive"] }
colored = "=3.1.1"
parking_lot = "=0.12.5"
async-trait = "=0.1.92"
axum = "=0.8.9"
tatara-lisp = "=0.4.13"
tatara-lisp-eval = "=0.4.13"
sea-orm = { version = "1", default-features = false, features = ["sqlx-sqlite", "runtime-tokio", "macros"] }
sea-orm-migration = { version = "1", default-features = false, features = ["sqlx-sqlite", "runtime-tokio"] }
async-graphql = "7"
async-graphql-axum = "7"
utoipa = "5"
