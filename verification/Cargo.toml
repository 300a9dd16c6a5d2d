[package]
name = "f429_disco"
version = "0.1.0"
edition = "2021"
publish = false

[dependencies]
cortex-m = "0.7"
embedded-hal = "0.2"
rtt-target = "0.5"
stm32f4xx-hal = { version = "0.20", features = ["stm32f429"] }
