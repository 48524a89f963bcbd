[package]
name = "hogan"
version = "0.7.4"
edition = "2021"
publish = false

[dependencies]
url = "2"
serde_json = "1"
handlebars = "3"
regex = "1"
redis = { version = "0.23", default-features = false }
anyhow = "1"
thiserror = "1"
log = "0.4"
stderrlog = "0.5"
structopt = "0.3"
lazy_static = "1"
serde = { version = "1", features = ["derive"] }
walkdir = "2"
tempfile = "3"
git2 = { version = "0.17", default-features = false }
zip = { version = "0.6", default-features = false }
compression = "0.1"
bincode = "1"
rusqlite = { version = "0.29", features = ["bundled"] }
lru = "0.10"
parking_lot = "0.12"
dogstatsd = "0.8"
actix-web = { version = "4", default-features = false, features = ["macros", "compress-gzip"] }
riker = "0.4"
riker-patterns = "0.4"
futures = "0.3"
uuid = { version = "1", features = ["v4"] }
crossbeam-channel = "0.5"
threadpool = "1"
shellexpand = "3"
