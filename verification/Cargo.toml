[package]
name = "stocks_rs"
version = "0.1.0"
edition = "2021"
publish = false

[dependencies]
chrono = "0.4"
chrono-tz = "*"
itertools = "*"
rust_decimal = "1"
rust_decimal_macros = "1"
serde = { version = "1", features = ["derive"] }
serde_json = "1"
ta = "*"
csv = "1"
log = "0.4"
simple_logger = "*"
ordered-float = "*"
rayon = "1"
regex = "1"
json_dotpath = "*"
url = "2"
uuid = { version = "1", features = ["v4"] }
cookie = "*"
anyhow = "1"
dotenv = "*"
memoize = "*"
rusqlite = { version = "*", features = ["bundled"] }
reqwest = "*"
tokio = { version = "1", features = ["full"] }
futures = "0.3"
async-recursion = "1"
async-shutdown = "*"
websocket-lite = "*"
yahoo_finance_api = "*"
