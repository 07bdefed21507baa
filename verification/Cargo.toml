[package]
name = "plexo_sdk"
version = "0.1.0"
edition = "2021"
publish = false

[dependencies]
sqlx = { version = "0.7", default-features = false, features = ["runtime-tokio", "postgres", "uuid", "chrono"] }
tokio = { version = "1", features = ["rt-multi-thread", "macros"] }
uuid = "1"
chrono = "0.4"
dotenv = "0.15"
