[package]
name = "snake_jungle"
version = "0.1.0"
edition = "2021"
publish = false

[dependencies]
heapless = "0.7"
cortex-m = "0.7"
cortex-m-rt = "0.7"
embedded-hal = "0.2"
lsm303agr = "0.2"
microbit-v2 = "0.12"
nb = "1"
panic-rtt-target = { version = "0.1", features = ["cortex-m"] }
rtt-target = { version = "0.3", features = ["cortex-m"] }
