[package]
name = "npm_powertoys"
version = "0.1.0"
edition = "2021"
publish = false

[dependencies]
clap = "4"
clearscreen = "*"
colored = "2"
dialoguer = "0.11"
node-semver = "2"
rayon = "1"
reqwest = { version = "0.12", default-features = false, features = ["blocking", "json", "rustls-tls"] }
serde = { version = "1", features = ["derive"] }
serde_json = { version = "1", features = ["preserve_order"] }
walkdir = "2"
