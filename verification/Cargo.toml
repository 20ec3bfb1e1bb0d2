[package]
name = "modbus_rtu_core"
version = "0.1.0"
edition = "2021"
publish = false

[dependencies]
anyhow = "1"
argh = "0.1"
serialport = "4"
