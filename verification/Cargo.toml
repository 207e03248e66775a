[package]
name = "gov_relay"
version = "0.1.0"
edition = "2021"
publish = false

[dependencies]
ethabi = "=18.0.0"
serde = { version = "1", features = ["derive"] }
serde_json = "1"
log = "0.4"
async-trait = "0.1"
amqprs = "*"
config = "*"
anchor-lang = "*"
anchor-spl = "*"
solana-sdk = "*"
