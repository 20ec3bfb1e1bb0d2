use modbus_rtu_core::codec::{encode_exception_response, encode_response, Response};
use modbus_rtu_core::error::{Error, ExceptionCode};
use modbus_rtu_core::function::Function;
use modbus_rtu_core::master::{Master, MasterState, Request, Transport};

/// A transport wired to a scripted slave: it records what was
/// written and answers each read with the next scripted outcome.
struct ScriptedTransport {
    written: Vec<Vec<u8>>,
    responses: Vec<Result<Vec<u8>, Error>>,
    reads: usize,
}

impl ScriptedTransport {
    fn new(responses: Vec<Result<Vec<u8>, Error>>) -> ScriptedTransport {
        ScriptedTransport { written: Vec::new(), responses, reads: 0 }
    }
}

impl Transport for ScriptedTransport {
    fn write(&mut self, bytes: &[u8]) -> Result<(), Error> {
        self.written.push(bytes.to_vec());
        Ok(())
    }

    fn read_until_idle(&mut self, _timeout_ms: u64) -> Result<Vec<u8>, Error> {
        let r = self.responses[self.reads].clone();
        self.reads += 1;
        r
    }
}

/// A transport whose line is dead on write.
struct BrokenTransport;

impl Transport for BrokenTransport {
    fn write(&mut self, _bytes: &[u8]) -> Result<(), Error> {
        Err(Error::IoError)
    }

    fn read_until_idle(&mut self, _timeout_ms: u64) -> Result<Vec<u8>, Error> {
        Err(Error::IoError)
    }
}

fn read_request(slave: u8, starting_address: u16, quantity: u16, timeout_ms: u64) -> Request {
    let function = Function::read_holding_registers(starting_address, quantity).unwrap();
    Request::new(slave, &function, timeout_ms)
}

#[test]
fn end_to_end_read() {
    // Simulated slave 0x01 answering a two-register read with 10, 11.
    let response = vec![0x01, 0x03, 0x04, 0x00, 0x0A, 0x00, 0x0B, 0x9B, 0xF6];
    let mut master = Master::new(ScriptedTransport::new(vec![Ok(response)]));
    let request = read_request(0x01, 0x0000, 2, 200);
    let result = master.send(&request);
    assert_eq!(result, Ok(Response::Registers(vec![10, 11])));
    assert_eq!(master.transport.written, vec![vec![0x01, 0x03, 0x00, 0x00, 0x00, 0x02, 0xC4, 0x0B]]);
    assert_eq!(master.transport.reads, 1);
    assert_eq!(master.state, MasterState::Idle);
}

#[test]
fn timeout_when_slave_stays_silent() {
    let mut master = Master::new(ScriptedTransport::new(vec![Err(Error::Timeout)]));
    let request = read_request(0x01, 0x0000, 2, 200);
    assert_eq!(master.send(&request), Err(Error::Timeout));
    assert_eq!(master.state, MasterState::Idle);
}

#[test]
fn write_failure_surfaces_as_io_error() {
    let mut master = Master::new(BrokenTransport);
    let request = read_request(0x01, 0x0000, 2, 200);
    assert_eq!(master.send(&request), Err(Error::IoError));
    assert_eq!(master.state, MasterState::Idle);
}

#[test]
fn read_failure_surfaces_as_io_error() {
    let mut master = Master::new(ScriptedTransport::new(vec![Err(Error::IoError)]));
    let request = read_request(0x01, 0x0000, 2, 200);
    assert_eq!(master.send(&request), Err(Error::IoError));
}

#[test]
fn response_from_wrong_slave_rejected() {
    let frame = encode_response(0x02, &vec![10, 11]);
    let mut master = Master::new(ScriptedTransport::new(vec![Ok(frame)]));
    let request = read_request(0x01, 0x0000, 2, 200);
    assert_eq!(master.send(&request), Err(Error::AddressMismatch));
}

#[test]
fn broadcast_expects_no_response() {
    let mut master = Master::new(ScriptedTransport::new(vec![]));
    let request = read_request(0x00, 0x0000, 2, 200);
    assert_eq!(master.send(&request), Ok(Response::Registers(vec![])));
    // The read side was never touched.
    assert_eq!(master.transport.reads, 0);
    assert_eq!(master.transport.written.len(), 1);
}

#[test]
fn exception_reply_surfaces_as_modbus_exception() {
    let frame = encode_exception_response(0x01, 0x03, 0x02);
    let mut master = Master::new(ScriptedTransport::new(vec![Ok(frame)]));
    let request = read_request(0x01, 0x0000, 2, 200);
    assert_eq!(
        master.send(&request),
        Err(Error::ModbusException(ExceptionCode::IllegalDataAddress))
    );
}

#[test]
fn corrupted_reply_surfaces_as_malformed_frame() {
    let mut frame = encode_response(0x01, &vec![10, 11]);
    frame[4] ^= 0x10;
    let mut master = Master::new(ScriptedTransport::new(vec![Ok(frame)]));
    let request = read_request(0x01, 0x0000, 2, 200);
    assert_eq!(master.send(&request), Err(Error::MalformedFrame));
}

#[test]
fn successive_sends_are_independent() {
    let silent = Err(Error::Timeout);
    let answer = Ok(vec![0x01, 0x03, 0x04, 0x00, 0x0A, 0x00, 0x0B, 0x9B, 0xF6]);
    let mut master = Master::new(ScriptedTransport::new(vec![silent, answer]));
    let request = read_request(0x01, 0x0000, 2, 200);
    assert_eq!(master.send(&request), Err(Error::Timeout));
    assert_eq!(master.send(&request), Ok(Response::Registers(vec![10, 11])));
}

#[test]
fn request_new_keeps_fields() {
    let function = Function::read_holding_registers(0x0010, 7).unwrap();
    let request = Request::new(0x05, &function, 350);
    assert_eq!(request.slave, 0x05);
    assert_eq!(request.function, function);
    assert_eq!(request.timeout_ms, 350);
}
