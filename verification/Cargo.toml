[package]
name = "thirdpass-py-lib"
version = "0.1.0"
edition = "2021"
publish = false

[dependencies]
anyhow = "1"
handlebars = "*"
reqwest = { version = "0.12", default-features = false, features = ["blocking", "rustls-tls"] }
semver = "1"
serde_json = "1"
thirdpass-core = "*"
url = "2"
