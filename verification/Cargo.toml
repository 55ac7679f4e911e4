[package]
name = "ferris_bot"
version = "0.1.0"
edition = "2021"
publish = false

[dependencies]
async-trait = "=0.1.92"
chrono = { version = "=0.4.45", features = ["serde"] }
futures = "=0.3.34"
itertools = "=0.10.5"
log = "=0.4.34"
oauth2 = { version = "=4.4.2", default-features = false }
rand = "=0.8.8"
regex = "=1.13.1"
serde = { version = "=1.0.229", features = ["derive"] }
serde_json = "=1.0.154"
serenity = "=0.8.9"
simple_logger = "=1.16.0"
structopt = "=0.3.26"
surf = "=2.3.2"
tiny_http = "=0.8.2"
tokio = { version = "=1.54.1", features = ["full"] }
toml = "=0.5.11"
twitch_api2 = { version = "=0.5.0", features = ["helix", "surf_client", "client"] }
twitch-irc = { version = "=2.2.0", features = ["refreshing-token"] }
twitch_oauth2 = { version = "=0.5.2", features = ["surf_client"] }
twitch_oauth2_auth_flow = "=0.0.1-alpha"
url = "=2.5.8"
