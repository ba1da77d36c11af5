[package]
name = "block_indexer"
version = "0.1.0"
edition = "2021"
publish = false

[dependencies]
anyhow = "=1.0.104"
bigdecimal = "=0.4.11"
clap = { version = "=4.6.7", default-features = false, features = ["std", "derive", "env", "help", "usage"] }
dotenv = "=0.15.0"
env_logger = { version = "=0.11.11", default-features = false }
ethers = { version = "=2.0.14", default-features = false }
futures = "=0.3.34"
indicatif = "=0.17.11"
log = "=0.4.34"
sqlx = { version = "=0.8.6", default-features = false, features = ["runtime-tokio", "postgres", "bigdecimal", "migrate"] }
tokio = { version = "=1.54.1", features = ["macros", "rt-multi-thread"] }
url = "=2.5.8"
