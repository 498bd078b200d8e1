[package]
name = "coop_deployer"
version = "0.1.0"
edition = "2021"
publish = false

[dependencies]
md5 = "0.7"
zip = { version = "2", default-features = false, features = ["deflate"] }
async-trait = "0.1"
axum = "0.7"
http = "1"
reqwest = { version = "0.12", default-features = false, features = ["json", "rustls-tls"] }
serde = { version = "1", features = ["derive"] }
serde_json = "1"
sqlx = { version = "0.8", default-features = false, features = ["postgres", "runtime-tokio"] }
tokio = { version = "1", features = ["macros", "rt-multi-thread", "net"] }
git2 = { version = "0.19", default-features = false }
