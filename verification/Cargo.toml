[package]
name = "ainv-helper"
version = "0.1.0"
edition = "2021"
publish = false

[dependencies]
anyhow = "1"
dirs = "*"
flexi_logger = "*"
fs2 = "0.4"
image = { version = "*", default-features = false }
log = "0.4"
muda = "*"
serde = { version = "1", features = ["derive"] }
sysinfo = "*"
tao = "*"
toml = "*"
tray-icon = "*"
