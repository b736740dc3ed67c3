[package]
name = "malscraper"
version = "2.0.7"
edition = "2021"
publish = false

[dependencies]
anyhow = "1"
chrono = "0.4"
clap = { version = "4", features = ["derive"] }
colored = "2"
crossterm = "0.27"
ctrlc = "3"
dialoguer = "0.11"
dirs = "5"
futures = "0.3"
hex = "0.4"
indicatif = "0.17"
rand = "0.8"
regex = "1"
reqwest = { version = "0.11", default-features = false, features = ["rustls-tls", "stream"] }
rustyline = "13"
semver = "1"
serde = { version = "1", features = ["derive"] }
serde_json = "1"
sha2 = "0.10"
tokio = { version = "1", features = ["full"] }
trust-dns-resolver = "0.23"
uuid = { version = "1", features = ["v4"] }
zip = { version = "0.6", default-features = false, features = ["deflate"] }
winapi = { version = "0.3", features = ["wincon", "consoleapi", "processenv", "winbase", "handleapi", "winuser", "libloaderapi", "windef"] }
