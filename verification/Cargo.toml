[package]
name = "rollcall"
version = "0.1.0"
edition = "2021"
publish = false

[dependencies]
chrono = "0.4"
chrono-tz = "*"
tokio = { version = "1", features = ["macros", "rt-multi-thread", "time", "net"] }
sqlx = { version = "*", default-features = false, features = ["runtime-tokio", "postgres", "chrono", "migrate"] }
tracing = "0.1"
tracing-subscriber = "*"
async-graphql = { version = "*", features = ["chrono"] }
axum = "*"
tower-http = { version = "*", features = ["cors"] }
dotenv = "*"
