[package]
name = "star_bounty"
version = "0.1.0"
edition = "2021"
publish = false

[dependencies]
ruint = { version = "=1.21.1", default-features = false }
streamflow-sdk = { version = "=0.15.0", default-features = false, features = ["cpi"] }
anchor-lang = { version = "0.32.1", default-features = false }
anchor-spl = { version = "0.32.1", default-features = false, features = ["token", "token_2022", "associated_token"] }
