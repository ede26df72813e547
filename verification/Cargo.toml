[package]
name = "modbus_mapping"
version = "0.1.0"
edition = "2021"
publish = false

[dependencies]
tokio-modbus = { version = "=0.17.0", features = ["tcp-server", "rtu-server"] }
tokio = { version = "=1.53.2", features = ["full"] }
tokio-serial = "=5.5.0"
tokio-stream = "=0.1.19"
futures = "=0.3.34"
async-trait = "=0.1.92"
