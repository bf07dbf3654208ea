[package]
name = "calligraphy"
version = "0.1.0"
edition = "2021"
publish = false

[dependencies]
uuid = { version = "*", features = ["v4"] }
axum = "*"
tokio = { version = "*", features = ["rt-multi-thread", "macros", "net"] }
sqlx = { version = "*", default-features = false, features = ["runtime-tokio", "postgres", "uuid", "time", "ipnetwork", "macros"] }
tower-cookies = "*"
time = { version = "*", features = ["formatting", "parsing", "serde-well-known"] }
serde = { version = "*", features = ["derive"] }
serde_json = "*"
tracing = "*"
tracing-subscriber = { version = "*", features = ["env-filter", "fmt"] }
