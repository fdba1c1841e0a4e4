[package]
name = "kittzo"
version = "0.1.0"
edition = "2021"
publish = false

[dependencies]
async-trait = "0.1"
axum = "0.8"
image = { version = "0.25", default-features = false, features = ["png"] }
rust_decimal = "1"
rusty-money = { version = "0.4", features = ["iso"] }
serde = { version = "1", features = ["derive"] }
sqlx = { version = "0.8", default-features = false, features = ["runtime-tokio", "sqlite", "time", "migrate", "macros"] }
thiserror = "2"
time = { version = "0.3", features = ["serde-well-known", "macros"] }
tokio = { version = "1", features = ["full"] }
toml = "0.8"
tower-http = { version = "0.6", features = ["fs"] }
tracing = "0.1"
twilight-gateway = "0.16"
twilight-http = "0.16"
twilight-model = "0.16"
uuid = { version = "1", features = ["v4"] }
