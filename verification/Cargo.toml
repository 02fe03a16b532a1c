[package]
name = "email_irc_bridge"
version = "0.1.0"
edition = "2021"
publish = false

[dependencies]
regex = "1"
select = "*"
irc-proto = "*"
lettre = "*"
async-imap = "*"
async-native-tls = "*"
async-std = "1"
futures = "0.3"
toml = "*"
serde = { version = "1", features = ["derive"] }
serde_derive = "1"
