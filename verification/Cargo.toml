[package]
name = "downtown"
version = "0.1.0"
edition = "2021"
publish = false

[dependencies]
async-trait = "0.1"
clap = { version = "4", features = ["derive"] }
clap-verbosity-flag = "2"
color-eyre = "0.6"
comfy-table = "7"
crossterm = { version = "0.27", features = ["event-stream"] }
dotenvy = "0.15"
futures = "0.3"
libbpf-rs = "0.22"
log = "0.4"
pretty_env_logger = "0.5"
ratatui = "0.26"
rustpython-ast = { version = "0.3", features = ["visitor"] }
rustpython-parser = "0.3"
sudo = "0.6"
syntect = { version = "5", default-features = false, features = ["default-fancy"] }
thiserror = "1"
tokio = { version = "1", features = ["full"] }
tokio-stream = "0.1"
xtra = { version = "0.6", features = ["tokio", "macros", "sink"] }
