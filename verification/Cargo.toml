[package]
name = "repo_reconcile"
version = "0.1.0"
edition = "2021"
publish = false

[dependencies]
chrono = { version = "=0.4.45", features = ["serde"] }
dotenv = "=0.15.0"
env_logger = "=0.11.11"
git2 = { version = "=0.21.0", default-features = false }
log = "=0.4.34"
octocrab = "=0.47.1"
serde = { version = "=1.0.229", features = ["derive"] }
thiserror = "=2.0.21"
uuid = { version = "=1.29.0", features = ["v4", "serde"] }
