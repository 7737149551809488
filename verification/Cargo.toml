[package]
name = "some_package"
version = "0.1.0"
edition = "2021"
publish = false

[dependencies]
ansi_term = "0.12"
anyhow = "1"
chrono = { version = "0.4", features = ["serde"] }
clap = { version = "3", features = ["derive"] }
comfy-table = "6"
csv = "1"
directories = "4"
reqwest = { version = "0.11", features = ["blocking", "json"] }
rusqlite = { version = "0.28", features = ["bundled", "csvtab"] }
rustyline = "10"
scraper = "0.13"
serde = { version = "1", features = ["derive"] }
serde_json = "1"
skim = "0.10"
tabwriter = "1"
thiserror = "1"
toml = "0.5"
url = "2"
uuid = { version = "1", features = ["v4"] }
