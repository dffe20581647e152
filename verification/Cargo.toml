[package]
name = "bie"
version = "0.1.0"
edition = "2021"
publish = false

[dependencies]
ring = "=0.17.14"
url = "=2.5.8"
clap = { version = "=4.6.7", features = ["derive"] }
config = "=0.15.27"
env_logger = "=0.11.11"
futures = "=0.3.34"
log = "=0.4.34"
serde = { version = "=1.0.229", features = ["derive"] }
tempfile = "=3.27.0"
tokio = { version = "=1.53.2", features = ["macros", "rt-multi-thread"] }
tokio-tungstenite = "=0.30.0"
toml = "=1.1.7"
warp = { version = "=0.4.3", features = ["server", "multipart", "websocket"] }
xdg = "=3.0.0"
