[package]
name = "vote-checker"
version = "0.1.0"
edition = "2021"
publish = false

[dependencies]
anyhow = "1"
bincode = "1.3"
bs58 = "0.5"
clap = { version = "4", default-features = false, features = ["std", "derive", "help", "usage", "error-context"] }
colored = "2"
indicatif = "0.17"
rand = "0.9"
reqwest = { version = "0.11", default-features = false, features = ["json", "rustls-tls"] }
serde = { version = "1", features = ["derive"] }
serde_json = "1"
solana-rpc-client = { version = "2.2", default-features = false }
solana-program = "2.2"
tokio = { version = "1", features = ["macros", "rt-multi-thread", "time"] }
