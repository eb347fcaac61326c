[package]
name = "hubble"
version = "0.1.0"
edition = "2021"
publish = false

[dependencies]
shakmaty = "=0.27.3"
pgn-reader = "=0.26.0"
serde = { version = "=1.0.229", features = ["derive"] }
serde_json = "=1.0.151"
tokio = { version = "=1.53.2", features = ["rt", "macros"] }
uciengine = "=0.1.33"
reqwest = { version = "=0.12.28", default-features = false }
regex = "=1.13.1"
clap = { version = "=4.6.7", features = ["derive"] }
comfy-table = "=7.2.2"
futures-util = "=0.3.34"
async-trait = "=0.1.92"
dotenv = "=0.15.0"
anyhow = "=1.0.104"
