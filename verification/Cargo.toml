[package]
name = "ibkr_dx"
version = "0.1.0"
edition = "2021"
publish = false

[dependencies]
flate2 = "1"
jiff = "0.2"
log = "0.4"
tracing-appender = "0.2"
tracing-subscriber = { version = "0.3", features = ["env-filter"] }
