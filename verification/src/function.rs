//! The closed set of supported MODBUS functions and their protocol
//! bounds.

use vstd::prelude::*;
use crate::error::Error;

verus! {

/// The function code of a holding-register read.
pub const READ_HOLDING_REGISTERS: u8 = 0x03;

/// The largest register quantity one read request may ask for.
pub const MAX_READ_QUANTITY: u16 = 125;

/// A supported MODBUS operation together with the fields its PDU
/// carries.
#[derive(Clone, Copy, Debug, PartialEq, Eq, Structural)]
pub enum Function {
    ReadHoldingRegisters { starting_address: u16, quantity: u16 },
}

impl Function {
    /// The per-function protocol bounds: a read must ask for 1 to 125
    /// registers.
    pub open spec fn valid(self) -> bool {
        match self {
            Function::ReadHoldingRegisters { starting_address: _, quantity } =>
                1 <= quantity <= MAX_READ_QUANTITY,
        }
    }

    /// The function code sent on the wire.
    pub open spec fn spec_code(self) -> u8 {
        match self {
            Function::ReadHoldingRegisters { .. } => READ_HOLDING_REGISTERS,
        }
    }

    /// The number of registers the operation touches.
    pub open spec fn spec_quantity(self) -> u16 {
        match self {
            Function::ReadHoldingRegisters { starting_address: _, quantity } => quantity,
        }
    }

    /// Builds a holding-register read, rejecting a quantity outside
    /// 1..=125 at construction time.
    pub fn read_holding_registers(starting_address: u16, quantity: u16) -> (r: Result<
        Function,
        Error,
    >)
        ensures
            1 <= quantity <= MAX_READ_QUANTITY <==> (r matches Ok(f) && f
                == (Function::ReadHoldingRegisters { starting_address, quantity })),
            !(1 <= quantity <= MAX_READ_QUANTITY) <==> r === Err(Error::InvalidRequestParameters),
    {
        if 1 <= quantity && quantity <= MAX_READ_QUANTITY {
            Ok(Function::ReadHoldingRegisters { starting_address, quantity })
        } else {
            Err(Error::InvalidRequestParameters)
        }
    }

    /// The function code sent on the wire.
    pub fn code(&self) -> (r: u8)
        ensures
            r == self.spec_code(),
    {
        match self {
            Function::ReadHoldingRegisters { .. } => READ_HOLDING_REGISTERS,
        }
    }

    /// The number of registers the operation touches.
    pub fn quantity(&self) -> (r: u16)
        ensures
            r == self.spec_quantity(),
    {
        match self {
            Function::ReadHoldingRegisters { starting_address: _, quantity } => *quantity,
        }
    }
}

} // verus!
