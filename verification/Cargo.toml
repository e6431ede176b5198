[package]
name = "citybound"
version = "0.1.0"
edition = "2021"
publish = false

[dependencies]
fnv = "=1.0.7"
rand = "=0.7.3"
uuid = "=0.8.2"
rouille = "=3.6.2"
backtrace = "=0.3.77"
serde = { version = "=1.0.229", features = ["derive"] }
serde_yaml = "=0.8.26"
