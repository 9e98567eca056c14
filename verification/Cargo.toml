[package]
name = "flowy-core"
version = "0.1.0"
edition = "2021"
publish = false

[dependencies]
bytes = "=1.12.1"
chrono = { version = "=0.4.45", default-features = false, features = ["clock", "std"] }
futures = "=0.3.34"
getrandom = "=0.4.3"
log = "=0.4.34"
md5 = "=0.7.0"
parking_lot = "=0.12.5"
tracing = "=0.1.44"
uuid = { version = "=1.29.0", features = ["v4"] }
