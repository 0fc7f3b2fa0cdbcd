[package]
name = "gramslator"
version = "0.1.0"
edition = "2021"
publish = false

[dependencies]
embedded-graphics = "=0.8.2"
ttf-parser = "=0.25.1"
ab_glyph_rasterizer = "=0.1.10"
edge-ws = "=0.8.0"
embedded-io = "=0.7.1"
embedded-io-async = "=0.7.0"
embassy-sync = "=0.8.0"
embassy-time = "=0.5.1"
embassy-executor = "=0.10.0"
embassy-net = { version = "=0.9.1", features = ["tcp", "dns", "proto-ipv4", "dhcpv4"] }
critical-section = "=1.2.0"
static_cell = "=2.1.1"
const_format = "=0.2.37"
konst = "=0.4.3"
esp-hal = "=1.1.2"
esp-radio = "=0.18.0"
esp-rtos = "=0.3.0"
esp-alloc = "=0.11.0"
esp-backtrace = "=0.20.0"
esp-println = "=0.18.0"
esp-bootloader-esp-idf = "=0.6.0"
esp32s3 = "=0.35.2"
mbedtls-rs = "=0.3.0"
mipidsi = "=0.10.0"
gt911 = "=0.3.0"
embedded-hal = "=1.0.0"
embedded-hal-bus = "=0.3.0"
tinyrlibc = "=0.5.1"
