[package]
name = "trichter"
version = "0.1.0"
edition = "2021"
publish = false

[dependencies]
esp-hal = { version = "=1.0.0-rc.0", features = ["esp32c3", "unstable"] }
esp-wifi = { version = "=0.14.1", features = ["esp32c3", "wifi"] }
esp-hal-embassy = { version = "=0.8.1", features = ["esp32c3"] }
esp-alloc = "=0.8.0"
esp-backtrace = { version = "=0.16.0", features = ["esp32c3", "panic-handler", "exception-handler", "println"] }
esp-println = { version = "=0.14.0", features = ["esp32c3", "defmt-espflash"] }
esp-bootloader-esp-idf = "=0.1.0"
embassy-executor = "=0.7.0"
embassy-net = { version = "=0.7.1", features = ["tcp", "dhcpv4", "proto-ipv4", "medium-ethernet"] }
embassy-sync = "=0.7.2"
embassy-time = "=0.4.0"
embedded-io-async = "=0.6.1"
defmt = "=1.2.0"
static_cell = "=2.1.1"
ag-lcd = "=0.3.0"
