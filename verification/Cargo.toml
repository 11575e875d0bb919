[package]
name = "ili9488_parallel"
version = "0.1.0"
edition = "2021"
publish = false

[dependencies]
cortex-m = "=0.7.10"
cortex-m-rt = "=0.7.7"
defmt = "=0.3.101"
defmt-rtt = "=0.4.2"
embedded-alloc = "=0.5.1"
embedded-graphics = "=0.8.2"
embedded-hal = "=1.0.0"
fugit = "=0.3.9"
panic-probe = { version = "=0.3.2", features = ["print-defmt"] }
pio = "=0.2.1"
pio-proc = "=0.2.2"
rp-pico = "=0.9.0"
rp2040-hal = "=0.10.2"
