[package]
name = "gpio_remote"
version = "0.1.0"
edition = "2021"
publish = false

[dependencies]
gpio = "*"
log = "*"
rmp-serde = "*"
serde = { version = "*", features = ["derive"] }
thiserror = "*"

[dev-dependencies]
rmp = "*"
