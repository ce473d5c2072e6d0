[package]
name = "auth_core"
version = "0.1.0"
edition = "2021"
publish = false

[dependencies]
bcrypt = "*"
hmac = "*"
sha2 = "*"
uuid = { version = "*", features = ["v4"] }
chrono = "*"
redis = { version = "*", features = ["tokio-comp"] }
sqlx = { version = "*", default-features = false, features = ["runtime-tokio", "postgres"] }
tokio = { version = "*", features = ["rt-multi-thread", "macros", "time"] }
