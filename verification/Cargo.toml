[package]
name = "argononed"
version = "0.1.0"
edition = "2021"
publish = false

[dependencies]
tokio = { version = "*", features = ["full"] }
tokio-stream = "*"
futures = "*"
libgpiod = "*"
i2c-linux = "*"
log = "*"
env_logger = "*"
systemd-journal-logger = "*"
system_shutdown = "*"
