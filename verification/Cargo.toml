[package]
name = "seclog"
version = "0.1.0"
edition = "2021"
publish = false

[dependencies]
regex = "*"
sha2 = "*"
argon2 = { version = "*", features = ["std"] }
rand = "*"
rand_core = { version = "*", features = ["os_rng"] }
serde = { version = "*", features = ["derive"] }
serde_json = "*"
sqlx = { version = "*", default-features = false, features = ["runtime-tokio", "mysql", "chrono", "derive"] }
axum = "*"
axum-extra = { version = "*", features = ["cookie"] }
tower-http = { version = "*", features = ["cors", "fs"] }
tokio = { version = "*", features = ["full"] }
reqwest = { version = "*", default-features = false, features = ["json", "rustls-tls"] }
chrono = { version = "*", features = ["serde"] }
time = "*"
dotenvy = "*"
hostname = "*"
