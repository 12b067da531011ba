[package]
name = "racer"
version = "0.1.0"
edition = "2021"
publish = false

[dependencies]
heapless = "0.8"
httparse = "1"
embedded-graphics = "0.8"
embassy-executor = "*"
embassy-futures = "*"
embassy-net = { version = "*", features = ["tcp", "udp", "proto-ipv4", "medium-ethernet"] }
embassy-time = "*"
edge-dhcp = { version = "*", features = ["io"] }
edge-nal = "*"
edge-nal-embassy = "*"
static_cell = "*"
esp-hal = { version = "*", features = ["esp32c3", "unstable"] }
esp-radio = { version = "*", features = ["esp32c3", "wifi", "unstable"] }
esp-rtos = { version = "*", features = ["esp32c3", "embassy", "esp-radio"] }
esp-alloc = "*"
esp-println = { version = "*", features = ["esp32c3"] }
esp-bootloader-esp-idf = { version = "*", features = ["esp32c3"] }
