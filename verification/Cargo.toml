[package]
name = "esp32_projects"
version = "0.1.0"
edition = "2021"
publish = false

[dependencies]
anyhow = "1"
embedded-hal = "1"
esp-idf-svc = "0.51"
log = "0.4"
rgb = "0.8"
toml-cfg = "*"
