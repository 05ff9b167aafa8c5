[package]
name = "dealer"
version = "0.1.0"
edition = "2021"
publish = false

[dependencies]
uuid = "=1.27.0"
chrono = "=0.4.45"
tokio = { version = "=1.53.2", features = ["macros", "rt-multi-thread", "time", "signal"] }
tokio-postgres = { version = "=0.7.18", features = ["with-chrono-0_4", "with-uuid-1"] }
tokio-util = "=0.7.19"
