[package]
name = "ree_cookie"
version = "0.1.0"
edition = "2021"
publish = false

[dependencies]
bincode = "1.3"
candid = "0.10"
hex = "0.4"
ic-canister-log = "0.2"
ic-cdk = "0.17"
ic-cdk-macros = "0.17"
ic-stable-structures = "=0.7.2"
ree-types = "=0.8.0"
serde = { version = "1", features = ["derive"] }
serde_json = "1"
