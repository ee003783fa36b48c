[package]
name = "nas_rom_manager"
version = "0.1.0"
edition = "2021"
publish = false

[dependencies]
regex = "=1.13.1"
wax = "=0.6.0"
sanitize-filename = "=0.6.0"
rust-crypto = "=0.2.36"
serde = { version = "=1.0.229", features = ["derive"] }
serde_json = "=1.0.154"
tokio = { version = "=1.54.1", features = ["full"] }
tokio-util = { version = "=0.7.20", features = ["codec", "compat"] }
warp = "=0.3.7"
futures = "=0.3.34"
futures-util = "=0.3.34"
bytes = "=1.12.1"
chrono = "=0.4.45"
cron = "=0.17.0"
notify = "=8.2.1"
async_zip = { version = "=0.0.19", features = ["tokio", "tokio-fs", "deflate"] }
sysinfo = "=0.39.6"
log = "=0.4.34"
dotenv = "=0.15.0"
pretty_env_logger = "=0.5.0"
reqwest = { version = "0.12", default-features = false, features = ["json", "rustls-tls"] }
urlencoding = "2"
phf = { version = "0.11", features = ["macros"] }
