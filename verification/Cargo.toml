[package]
name = "display_rtsp_streamer"
version = "0.1.0"
edition = "2021"
publish = false

[dependencies]
anyhow = "=1.0.104"
clap = { version = "=4.6.7", features = ["derive"] }
ctrlc = "=3.5.2"
dirs = "=7.0.0"
display-info = "=0.5.9"
env_logger = "=0.11.11"
local-ip-address = "=0.6.13"
log = "=0.4.34"
once_cell = "=1.21.4"
scrap = "=0.5.0"
serde = { version = "=1.0.229", features = ["derive"] }
toml = "=1.1.7"
