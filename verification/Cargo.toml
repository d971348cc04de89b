[package]
name = "monocle"
version = "0.1.0"
edition = "2021"
publish = false

[dependencies]
heapless = "=0.9.3"
serde = { version = "=1.0.229", features = ["derive"] }
serde_json = "=1.0.154"
serial = "=0.4.0"
websocket = { version = "=0.27.1", default-features = false, features = ["sync"] }
simple-server = "=0.4.0"
nb = "=1.1.0"
usb-device = "=0.3.2"
cortex-m = "=0.7.10"
cortex-m-rt = "*"
stm32f103xx = "=0.11.0"
