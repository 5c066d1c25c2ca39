[package]
name = "web3console"
version = "0.1.0"
edition = "2021"
publish = false

[dependencies]
ethers-core = "2"
ethers-providers = "2"
ethers-contract = { version = "2", default-features = false, features = ["providers"] }
reqwest = { version = "0.11", default-features = false, features = ["json", "rustls-tls"] }
serde_json = "*"
tokio = { version = "*", features = ["macros", "rt-multi-thread"] }
