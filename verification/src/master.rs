//! The master: one synchronous request/response exchange at a time
//! over an exclusively owned transport.
//!
//! The transport is a byte-oriented serial channel the host supplies;
//! RS-485 turnaround handling belongs to its `write`.  The master
//! encodes the request, writes the frame, waits for one response
//! within the request's timeout, and decodes it — no queuing, no
//! pipelining, no automatic retry.

use vstd::prelude::*;
use crate::codec::{encode, decode, decoded_view, spec_decode, Response};
use crate::error::Error;
use crate::function::Function;

verus! {

/// A byte-oriented serial duplex channel.  Implementations live with
/// the host: they own the port handle, the inter-byte silence
/// heuristic that ends an RTU frame, and the RS-485 turnaround delay
/// around each write.
pub trait Transport {
    /// Blocking write of the whole buffer; any transport fault
    /// surfaces as `IoError`.
    fn write(&mut self, bytes: &[u8]) -> (r: Result<(), Error>)
        ensures
            r matches Err(e) ==> e == Error::IoError,
    ;

    /// Blocking read that accumulates bytes until inter-byte silence
    /// or the overall timeout; `Timeout` if no byte arrived at all,
    /// `IoError` on a transport fault, never an empty buffer.
    fn read_until_idle(&mut self, timeout_ms: u64) -> (r: Result<Vec<u8>, Error>)
        ensures
            r matches Err(e) ==> e == Error::Timeout || e == Error::IoError,
            r matches Ok(b) ==> b@.len() >= 1,
    ;
}

/// One immutable request: whom to ask (address 0 broadcasts, 1 to 247
/// address a single slave), what to ask, and how long to wait for the
/// answer.
#[derive(Clone, Copy, Debug)]
pub struct Request {
    pub slave: u8,
    pub function: Function,
    pub timeout_ms: u64,
}

impl Request {
    /// Bundles a request.
    pub fn new(slave: u8, function: &Function, timeout_ms: u64) -> (r: Request)
        ensures
            r == (Request { slave, function: *function, timeout_ms }),
    {
        Request { slave, function: *function, timeout_ms }
    }
}

/// Where the master stands inside an exchange.  Each `send` runs the
/// whole cycle and leaves the master idle again, whether it succeeded
/// or failed.
#[derive(Clone, Copy, Debug, PartialEq, Eq, Structural)]
pub enum MasterState {
    Idle,
    Sending,
    AwaitingResponse,
}

/// A received read outcome with the bytes seen as a sequence, for
/// stating contracts.
pub open spec fn read_view(rr: Result<Vec<u8>, Error>) -> Result<Seq<u8>, Error> {
    match rr {
        Ok(b) => Ok(b@),
        Err(e) => Err(e),
    }
}

/// What an exchange yields once the transport has spoken: a read
/// failure propagates as it is; received bytes are decoded against
/// the request's function, and a response from the wrong slave is an
/// `AddressMismatch`.
pub open spec fn spec_exchange_outcome(req: Request, rr: Result<Seq<u8>, Error>) -> Result<
    Seq<u16>,
    Error,
> {
    match rr {
        Err(e) => Err(e),
        Ok(bytes) => match spec_decode(bytes, req.function) {
            Err(e) => Err(e),
            Ok(vals) => if bytes[0] == req.slave {
                Ok(vals)
            } else {
                Err(Error::AddressMismatch)
            },
        },
    }
}

/// A decode that succeeds yields exactly the number of registers the
/// request asked for.
pub proof fn lemma_decode_ok_length(bytes: Seq<u8>, expected: Function)
    ensures
        spec_decode(bytes, expected) matches Ok(vals) ==> vals.len()
            == expected.spec_quantity(),
{
    match spec_decode(bytes, expected) {
        Ok(vals) => {
            assert(bytes[2] as int == 2 * expected.spec_quantity());
            assert(vals.len() == bytes.subrange(3, bytes.len() - 2).len() / 2);
        },
        Err(_) => {},
    }
}

/// Completes an exchange from whatever the transport handed back: a
/// transport failure passes through unchanged (a silent slave stays a
/// `Timeout`); received bytes are decoded and their origin checked.
pub fn complete_exchange(req: &Request, rr: Result<Vec<u8>, Error>) -> (r: Result<
    Response,
    Error,
>)
    ensures
        decoded_view(r) == spec_exchange_outcome(*req, read_view(rr)),
        rr matches Err(e) ==> r == Err::<Response, Error>(e),
{
    match rr {
        Err(e) => Err(e),
        Ok(bytes) => match decode(bytes.as_slice(), &req.function) {
            Err(e) => Err(e),
            Ok(resp) => {
                if bytes[0] == req.slave {
                    Ok(resp)
                } else {
                    Err(Error::AddressMismatch)
                }
            },
        },
    }
}

/// The master: exclusive owner of one transport, one outstanding
/// exchange at most.
pub struct Master<T: Transport> {
    pub transport: T,
    pub state: MasterState,
}

impl<T: Transport> Master<T> {
    /// Takes ownership of a transport; the master starts idle.
    pub fn new(transport: T) -> (r: Master<T>)
        ensures
            r.state == MasterState::Idle,
    {
        Master { transport, state: MasterState::Idle }
    }

    /// One synchronous exchange: encode, write, await one response,
    /// decode, and return to idle whatever happened.  A broadcast
    /// (slave 0) expects no response: the read is skipped and success
    /// carries no registers.  Failures the exchange itself can surface
    /// are `IoError`, `Timeout`, `MalformedFrame`, `UnexpectedFunction`,
    /// `AddressMismatch`, and `ModbusException`; there is no retry.
    pub fn send(&mut self, request: &Request) -> (r: Result<Response, Error>)
        ensures
            final(self).state == MasterState::Idle,
            r matches Err(e) ==> e != Error::PortUnavailable && e
                != Error::InvalidRequestParameters,
            request.slave != 0 ==> (r matches Ok(resp) ==> resp.values().len()
                == request.function.spec_quantity()),
            request.slave == 0 ==> match r {
                Ok(resp) => resp.values() == Seq::<u16>::empty(),
                Err(e) => e == Error::IoError,
            },
    {
        self.state = MasterState::Sending;
        let frame = encode(request.slave, &request.function);
        match self.transport.write(frame.as_slice()) {
            Ok(_) => (),
            Err(e) => {
                self.state = MasterState::Idle;
                return Err(e);
            },
        }
        if request.slave == 0 {
            self.state = MasterState::Idle;
            return Ok(Response::Registers(Vec::new()));
        }
        self.state = MasterState::AwaitingResponse;
        let rr = self.transport.read_until_idle(request.timeout_ms);
        let ghost grr = read_view(rr);
        let r = complete_exchange(request, rr);
        proof {
            if let Ok(bytes) = grr {
                lemma_decode_ok_length(bytes, request.function);
            }
        }
        self.state = MasterState::Idle;
        r
    }
}

} // verus!
