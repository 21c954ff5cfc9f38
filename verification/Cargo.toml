[package]
name = "yuri_every_hour_bot"
version = "0.1.0"
edition = "2021"
publish = false

[dependencies]
anyhow = "1"
async-trait = "0.1"
chrono = "0.4"
clap = { version = "4", features = ["derive", "env"] }
dirs = "*"
figment = { version = "0.10", features = ["yaml", "env"] }
figment_file_provider_adapter = "*"
serde = { version = "1", features = ["derive"] }
serenity = { version = "0.12", features = ["collector"] }
sqlx = { version = "0.8", features = ["runtime-tokio", "postgres", "chrono", "migrate", "derive"] }
tokio = { version = "1", features = ["macros", "rt-multi-thread", "sync"] }
tracing = "0.1"
tracing-subscriber = { version = "0.3", features = ["env-filter"] }
