[package]
name = "kc868-a6"
version = "0.1.0"
edition = "2021"
publish = false

[dependencies]
embassy-embedded-hal = "=0.3.2"
embassy-executor = "=0.7.0"
embassy-futures = "=0.1.2"
embassy-net = { version = "=0.6.0", features = ["tcp", "udp", "dhcpv4", "dns", "medium-ethernet"] }
embassy-sync = "=0.6.2"
embassy-time = "=0.4.0"
embedded-graphics = "=0.8.2"
embedded-hal-async = "=1.0.0"
embedded-hal-bus = { version = "=0.3.0", features = ["async"] }
embedded-io-async = "=0.6.1"
embedded-storage = "=0.3.2"
esp-alloc = "0.6"
esp-backtrace = { version = "0.15", features = ["esp32", "println", "panic-handler"] }
esp-hal = { version = "0.23", features = ["esp32", "unstable"] }
esp-hal-embassy = { version = "0.6", features = ["esp32"] }
esp-println = { version = "0.13", features = ["esp32", "log"] }
esp-storage = { version = "0.4", features = ["esp32"] }
esp-wifi = { version = "0.12", features = ["esp32", "wifi"] }
heapless = "=0.8.0"
libm = "=0.2.16"
log = "=0.4.35"
rust-mqtt = { version = "=0.3.1", default-features = false }
ssd1306 = { version = "=0.10.0", features = ["async"] }
static_cell = "=2.1.1"
