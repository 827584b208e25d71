[package]
name = "picodsp_ble"
version = "0.1.0"
edition = "2021"
publish = false

[dependencies]
heapless = "0.8"
libm = "*"
midir = "*"
embassy-futures = "*"
embassy-sync = "*"
embassy-time = "*"
embassy-usb = "*"
embassy-executor = "*"
embassy-rp = { version = "0.10", features = ["rp235xb", "time-driver", "critical-section-impl"] }
embedded-storage-async = "*"
embedded-alloc = "*"
critical-section = "*"
cortex-m = "*"
cyw43 = { version = "*", features = ["bluetooth"] }
cyw43-pio = "*"
bt-hci = "*"
trouble-host = { version = "*", features = ["central", "gatt", "scan", "security"] }
static_cell = "*"
defmt = "*"
defmt-rtt = "*"
panic-halt = "*"
