[package]
name = "nature_db"
version = "0.1.0"
edition = "2021"
publish = false

[dependencies]
serde = { version = "=1.0.229", features = ["derive"] }
serde_json = "=1.0.154"
chrono = "=0.4.45"
lru_time_cache = "=0.11.11"
rand = "=0.10.3"
uuid = { version = "=1.29.0", features = ["v4"] }
log = "=0.4.35"
lazy_static = "=1.5.1"
tokio = { version = "=1.54.1", features = ["rt-multi-thread", "macros"] }
async-trait = "=0.1.92"
mysql_async = { version = "=0.37.1", default-features = false, features = ["minimal-rust", "chrono"] }
diesel = { version = "=1.4.8", default-features = false }
fern = "=0.7.1"
r2d2 = "=0.8.10"
