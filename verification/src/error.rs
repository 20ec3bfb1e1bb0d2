//! The error taxonomy of the master and codec, and the MODBUS
//! exception codes a slave can answer with.

use vstd::prelude::*;

verus! {

/// A MODBUS exception code, carried by a response whose function byte
/// has the high bit set.
#[derive(Clone, Copy, Debug, PartialEq, Eq, Structural)]
pub enum ExceptionCode {
    IllegalFunction,
    IllegalDataAddress,
    IllegalDataValue,
    SlaveDeviceFailure,
    /// Any other code; the raw byte is kept.
    Other(u8),
}

/// Everything that can go wrong while building, sending, or decoding a
/// request.
#[derive(Clone, Copy, Debug, PartialEq, Eq, Structural)]
pub enum Error {
    /// The serial device could not be opened or configured.
    PortUnavailable,
    /// An underlying transport fault while writing or reading.
    IoError,
    /// No response byte arrived before the request's deadline.
    Timeout,
    /// The response frame is too short, fails its CRC check, or its
    /// payload does not have the declared shape.
    MalformedFrame,
    /// The response echoes a function code other than the request's.
    UnexpectedFunction,
    /// The response comes from a slave other than the one addressed.
    AddressMismatch,
    /// The slave answered with a MODBUS exception response.
    ModbusException(ExceptionCode),
    /// A request parameter is outside its protocol bounds.
    InvalidRequestParameters,
}

impl ExceptionCode {
    /// The exception code a slave transmits for this value.
    pub open spec fn spec_byte(self) -> u8 {
        match self {
            ExceptionCode::IllegalFunction => 0x01,
            ExceptionCode::IllegalDataAddress => 0x02,
            ExceptionCode::IllegalDataValue => 0x03,
            ExceptionCode::SlaveDeviceFailure => 0x04,
            ExceptionCode::Other(b) => b,
        }
    }

    /// The exception code as transmitted on the wire.
    pub fn byte(self) -> (r: u8)
        ensures
            r == self.spec_byte(),
    {
        match self {
            ExceptionCode::IllegalFunction => 0x01,
            ExceptionCode::IllegalDataAddress => 0x02,
            ExceptionCode::IllegalDataValue => 0x03,
            ExceptionCode::SlaveDeviceFailure => 0x04,
            ExceptionCode::Other(b) => b,
        }
    }
}

/// The exception a received code byte stands for.
pub open spec fn spec_exception_from_byte(b: u8) -> ExceptionCode {
    if b == 0x01 {
        ExceptionCode::IllegalFunction
    } else if b == 0x02 {
        ExceptionCode::IllegalDataAddress
    } else if b == 0x03 {
        ExceptionCode::IllegalDataValue
    } else if b == 0x04 {
        ExceptionCode::SlaveDeviceFailure
    } else {
        ExceptionCode::Other(b)
    }
}

/// Decodes a received exception code byte.
pub fn exception_from_byte(b: u8) -> (r: ExceptionCode)
    ensures
        r == spec_exception_from_byte(b),
{
    if b == 0x01 {
        ExceptionCode::IllegalFunction
    } else if b == 0x02 {
        ExceptionCode::IllegalDataAddress
    } else if b == 0x03 {
        ExceptionCode::IllegalDataValue
    } else if b == 0x04 {
        ExceptionCode::SlaveDeviceFailure
    } else {
        ExceptionCode::Other(b)
    }
}

} // verus!
