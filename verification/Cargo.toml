[package]
name = "pugo"
version = "0.1.0"
edition = "2021"
publish = false

[dependencies]
chrono = "0.4"
pulldown-cmark = { version = "0.9", default-features = false }
md-5 = "0.10"
base16ct = { version = "0.1", features = ["alloc"] }
rss = "2"
serde = { version = "1", features = ["derive"] }
serde_yaml = "0.9"
toml = "0.5"
handlebars = "4"
sitewriter = "*"
walkdir = "2"
notify = "*"
clap = { version = "3", features = ["derive"] }
env_logger = "0.9"
log = "0.4"
rust-embed = "6"
flate2 = "1"
tar = "0.4"
actix-web = { version = "4", default-features = false, features = ["macros"] }
actix-files = "0.6"
