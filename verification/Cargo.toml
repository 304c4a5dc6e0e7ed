[package]
name = "eth-bytecode-db"
version = "0.1.0"
edition = "2021"
publish = false

[dependencies]
anyhow = "1"
bigdecimal = "0.4"
clap = { version = "4", features = ["derive"] }
config = { version = "0.13", default-features = false }
ethers-core = { version = "2", default-features = false }
hex = "0.4"
sea-orm = { version = "0.12", default-features = false, features = ["macros", "with-json", "with-chrono", "with-uuid"] }
serde = { version = "1", features = ["derive"] }
serde_json = "1"
url = { version = "2", features = ["serde"] }
