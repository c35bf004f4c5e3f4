[package]
name = "tgbridge"
version = "0.1.0"
edition = "2021"
publish = false

[dependencies]
argparse = "*"
futures = "*"
telegram-bot = "*"
tokio = { version = "*", features = ["macros", "rt-multi-thread"] }
