[package]
name = "imoog"
version = "0.1.0"
edition = "2021"
publish = false

[dependencies]
inflate = "*"
deflate = "*"
serde = { version = "*", features = ["derive"] }
serde_bytes = "*"
toml = "*"
axum = "*"
tokio = { version = "*", features = ["macros", "rt-multi-thread"] }
mongodb = "*"
sqlx = { version = "*", features = ["postgres", "runtime-tokio"] }
async-trait = "*"
tracing = "*"
tracing-subscriber = "*"
