//! A small MODBUS-RTU master core: frame encoding and decoding with
//! CRC-16/MODBUS checking, a typed function-code model, and a
//! single-exchange master over a pluggable serial transport.

pub mod crc;
pub mod error;
pub mod function;
pub mod codec;
pub mod master;
