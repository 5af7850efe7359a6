[package]
name = "apoxy_js"
version = "0.1.0"
edition = "2021"
publish = false

[dependencies]
anyhow = "=1.0.104"
chrono = "=0.4.45"
env_logger = "=0.11.11"
extism-pdk = "=1.4.1"
javy = { version = "2", features = ["json"] }
log = "=0.4.34"
once_cell = "=1.21.4"
quickjs-wasm-rs = "3"
structopt = "=0.3.26"
tempfile = "=3.27.0"

[dev-dependencies]
rmp-serde = "=1.3.1"
