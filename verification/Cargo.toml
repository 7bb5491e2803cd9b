[package]
name = "protonvpn"
version = "0.1.0"
edition = "2021"
publish = false

[dependencies]
anyhow = "=1.0.104"
chrono = { version = "=0.4.45", features = ["serde"] }
confy = "=0.4.0"
console = "=0.15.11"
dialoguer = "=0.10.4"
directories = "=3.0.2"
paw = "=1.0.0"
serde = { version = "=1.0.229", features = ["derive"] }
serde_json = "=1.0.154"
structopt = { version = "=0.3.26", features = ["paw"] }
tempfile = "=3.27.0"
ureq = { version = "=2.12.1", features = ["json"] }
url = { version = "=2.5.8", features = ["serde"] }
