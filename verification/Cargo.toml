[package]
name = "necoboard"
version = "0.1.0"
edition = "2021"
publish = false

[dependencies]
heapless = "=0.8.0"
cortex-m = "=0.7.9"
embedded-hal = "=0.2.7"
rp2040-hal = "=0.9.2"
rp-pico = "=0.8.0"
fugit = "=0.3.9"
usb-device = "=0.2.9"
ssd1306 = "=0.8.4"
embedded-graphics = "=0.8.2"
