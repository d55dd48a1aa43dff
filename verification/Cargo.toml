[package]
name = "dbmlgen"
version = "0.1.0"
edition = "2021"
publish = false

[dependencies]
anyhow = "1"
clap = { version = "4", features = ["derive"] }
home = "0.5"
regex = "1"
serde = { version = "1", features = ["derive"] }
serde_yaml = "0.9"
sqlx = { version = "0.8", default-features = false, features = ["runtime-tokio", "mysql", "derive"] }
tokio = { version = "1", features = ["macros", "rt-multi-thread"] }
