[package]
name = "mamkilover"
version = "0.1.0"
edition = "2021"
rust-version = "1.95"
publish = false

[dependencies]
diesel = { version = "=2.3.14", default-features = false, features = ["r2d2", "sqlite"] }
env_logger = "=0.11.11"
log = "=0.4.35"
regex = "=1.13.1"
takecell = "=0.1.1"
teloxide = { version = "=0.17.0", default-features = false, features = ["ctrlc_handler", "macros", "rustls"] }
tokio = { version = "=1.54.1", features = ["macros", "rt-multi-thread"] }
url = "=2.5.8"
