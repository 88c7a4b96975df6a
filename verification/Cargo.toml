[package]
name = "esp32_rust_c_hid_example"
version = "0.1.0"
edition = "2021"
publish = false

[dependencies]
anyhow = "*"
log = "*"
esp-idf-svc = "*"
esp-idf-sys = "*"
