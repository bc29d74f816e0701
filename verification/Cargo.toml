[package]
name = "danbooru_notifier"
version = "0.1.0"
edition = "2021"
publish = false

[dependencies]
diesel = { version = "=1.4.8", features = ["postgres"] }
diesel_migrations = "=1.4.0"
dotenv = "=0.15.0"
futures = "0.3"
log = "0.4"
pretty_env_logger = "=0.4.0"
reqwest = { version = "=0.11.27", features = ["json"] }
serde = { version = "1", features = ["derive"] }
# Not used by name: teloxide-core depends on it, and its 0.1.2 asks for Rust 1.96.
takecell = "=0.1.1"
teloxide = { version = "=0.10.1", features = ["macros", "auto-send"] }
tokio = { version = "1", features = ["rt-multi-thread", "macros"] }
