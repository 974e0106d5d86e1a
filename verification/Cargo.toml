[package]
name = "rp_usb_host"
version = "0.1.0"
edition = "2021"
publish = false

[dependencies]
cortex-m = "0.7"
critical-section = "1"
embassy-futures = "*"
embassy-sync = "*"
embassy-time = "*"
embassy-usb-driver = "*"
once_cell = "1"
rp-pac = { version = "*", features = ["rp235x"] }
