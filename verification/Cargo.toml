[package]
name = "bevy_testing"
version = "0.1.0"
edition = "2021"
publish = false

[dependencies]
bevy = { version = "0.14", default-features = false }
colored = "2"
sealed = "0.5"
