[package]
name = "mb2_life"
version = "0.1.0"
edition = "2021"
publish = false

[dependencies]
cortex-m-rt = "0.7"
embedded-hal = "1.0"
microbit-v2 = "*"
panic-rtt-target = "*"
rtt-target = "*"
