[package]
name = "boosty_gate"
version = "0.1.0"
edition = "2021"
publish = false

[dependencies]
serde = { version = "*", features = ["derive"] }
toml = "=0.8.23"
chrono = "=0.4.45"
reqwest = { version = "=0.12.28", default-features = false, features = ["json", "rustls-tls"] }
tokio = { version = "*", features = ["macros", "rt-multi-thread", "time", "sync"] }
teloxide = { version = "=0.12.2", default-features = false, features = ["macros", "rustls", "ctrlc_handler"] }
# Not used directly: pins teloxide-core's takecell below 0.1.2, whose compiler
# requirement this toolchain does not meet.
takecell = "<0.1.2"
dotenvy = "*"
log = "*"
pretty_env_logger = "*"
