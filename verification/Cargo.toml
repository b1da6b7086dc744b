[package]
name = "adr_db_lib"
version = "0.1.0"
edition = "2021"
publish = false

[dependencies]
serde = { version = "1", features = ["derive"] }
serde_json = "1"
toml = "0.8"
ureq = { version = "2", features = ["json"] }
clap = { version = "4", features = ["derive"] }
crossterm = "0.28"
ratatui = "0.29"
tempfile = "3"
dirs = "5"
rust-embed = "8"
diesel = { version = "2", features = ["sqlite"] }
diesel_migrations = "2"
