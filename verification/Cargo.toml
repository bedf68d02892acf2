[package]
name = "temporal_core"
version = "0.1.0"
edition = "2021"
publish = false

[dependencies]
icu_calendar = { version = "*", default-features = false }
