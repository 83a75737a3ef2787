[package]
name = "esp32_netcfg"
version = "0.1.0"
edition = "2021"
publish = false

[dependencies]
heapless = "0.8"
embassy-executor = "*"
embassy-futures = "*"
embassy-net = { version = "*", features = ["tcp", "udp", "dhcpv4", "proto-ipv4", "medium-ethernet"] }
embassy-sync = "*"
embassy-time = "*"
embedded-io-async = "*"
smart-leds = "*"
static_cell = "*"
defmt = "*"
esp-hal = "*"
esp-radio = "*"
esp-rtos = "*"
esp-println = "*"
esp-alloc = "*"
esp-backtrace = "*"
esp-bootloader-esp-idf = "*"
