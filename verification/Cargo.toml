[package]
name = "stm32f4xx_hal"
version = "0.1.0"
edition = "2021"
publish = false

[dependencies]
embedded-hal = "1"
display-interface = "0.5"
embedded-graphics-core = "0.4"
