[package]
name = "lessons"
version = "0.1.0"
edition = "2021"
publish = false

[dependencies]
actix-service = "=2.0.3"
actix-web = { version = "=4.18.1", default-features = false }
chrono = { version = "=0.4.45", default-features = false, features = ["std", "serde"] }
futures = { version = "=0.3.34", default-features = false, features = ["std"] }
indoc = "=2.0.8"
serde = { version = "=1.0.229", features = ["derive"] }
serde_repr = "=0.1.21"
sqlx = { version = "=0.9.0", default-features = false, features = ["postgres", "runtime-tokio", "chrono"] }
thiserror = "=2.0.21"
