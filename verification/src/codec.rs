//! The frame codec: pure translation between a request and its wire
//! frame, and from a received frame back to register values.
//!
//! A frame is the slave address, the PDU, and the CRC-16/MODBUS of
//! address + PDU appended low byte first.  Multi-byte PDU fields are
//! big-endian, per the MODBUS convention.

use vstd::prelude::*;
use vstd::slice::slice_subrange;
use crate::crc::{spec_crc16, crc16, lemma_crc_single_byte_difference};
use crate::error::{Error, spec_exception_from_byte, exception_from_byte};
use crate::function::{Function, READ_HOLDING_REGISTERS};

verus! {

/// The high byte of a big-endian 16-bit field.
pub open spec fn hi(x: u16) -> u8 {
    (x >> 8) as u8
}

/// The low byte of a big-endian 16-bit field.
pub open spec fn lo(x: u16) -> u8 {
    (x & 0xFF) as u8
}

/// The 16-bit value with high byte `h` and low byte `l`.
pub open spec fn word(h: u8, l: u8) -> u16 {
    ((h as u16) << 8) | (l as u16)
}

/// The message (address + PDU) of a request, before the CRC trailer.
pub open spec fn spec_request_message(slave: u8, function: Function) -> Seq<u8> {
    match function {
        Function::ReadHoldingRegisters { starting_address, quantity } => seq![
            slave,
            READ_HOLDING_REGISTERS,
            hi(starting_address),
            lo(starting_address),
            hi(quantity),
            lo(quantity),
        ],
    }
}

/// A message with its CRC appended, low byte first.
pub open spec fn with_crc(msg: Seq<u8>) -> Seq<u8> {
    msg + seq![lo(spec_crc16(msg)), hi(spec_crc16(msg))]
}

/// The full wire frame of a request.
pub open spec fn spec_encode(slave: u8, function: Function) -> Seq<u8> {
    with_crc(spec_request_message(slave, function))
}

/// The CRC a frame carries in its last two bytes, low byte first.
pub open spec fn stored_crc(bytes: Seq<u8>) -> u16 {
    word(bytes[bytes.len() - 1], bytes[bytes.len() - 2])
}

/// The register values a run of big-endian byte pairs holds.
pub open spec fn spec_registers_of(data: Seq<u8>) -> Seq<u16> {
    Seq::new((data.len() / 2) as nat, |i: int| word(data[2 * i], data[2 * i + 1]))
}

/// The big-endian byte pairs of a run of register values.
pub open spec fn spec_register_data(values: Seq<u16>) -> Seq<u8> {
    Seq::new(
        2 * values.len(),
        |i: int|
            if i % 2 == 0 {
                hi(values[i / 2])
            } else {
                lo(values[i / 2])
            },
    )
}

/// The message of a well-formed read response carrying `values`.
pub open spec fn spec_response_message(slave: u8, values: Seq<u16>) -> Seq<u8> {
    seq![slave, READ_HOLDING_REGISTERS, (2 * values.len()) as u8] + spec_register_data(values)
}

/// The full wire frame of a well-formed read response.
pub open spec fn spec_encode_response(slave: u8, values: Seq<u16>) -> Seq<u8> {
    with_crc(spec_response_message(slave, values))
}

/// The full wire frame of an exception response to function code
/// `code`, carrying exception code byte `exception`.
pub open spec fn spec_encode_exception(slave: u8, code: u8, exception: u8) -> Seq<u8> {
    with_crc(seq![slave, code | 0x80, exception])
}

/// What decoding a received frame against the request's function
/// yields: the register values, or the first failure found.
pub open spec fn spec_decode(bytes: Seq<u8>, expected: Function) -> Result<Seq<u16>, Error> {
    if bytes.len() < 4 {
        Err(Error::MalformedFrame)
    } else if spec_crc16(bytes.take(bytes.len() - 2)) != stored_crc(bytes) {
        Err(Error::MalformedFrame)
    } else if bytes[1] == expected.spec_code() | 0x80 {
        if bytes.len() == 5 {
            Err(Error::ModbusException(spec_exception_from_byte(bytes[2])))
        } else {
            Err(Error::MalformedFrame)
        }
    } else if bytes[1] != expected.spec_code() {
        Err(Error::UnexpectedFunction)
    } else if bytes.len() < 5 {
        Err(Error::MalformedFrame)
    } else if bytes[2] as int != bytes.len() - 5 || bytes[2] as int != 2 * expected.spec_quantity() {
        Err(Error::MalformedFrame)
    } else {
        Ok(spec_registers_of(bytes.subrange(3, bytes.len() - 2)))
    }
}

/// A successfully decoded response: the register values read.
#[derive(Clone, Debug, PartialEq, Eq)]
pub enum Response {
    Registers(Vec<u16>),
}

impl Response {
    /// The register values the response carries.
    pub open spec fn values(self) -> Seq<u16> {
        match self {
            Response::Registers(v) => v@,
        }
    }

    /// The register values the response carries.
    pub fn registers(&self) -> (r: &Vec<u16>)
        ensures
            r@ == self.values(),
    {
        match self {
            Response::Registers(v) => v,
        }
    }
}

/// A decode result with the payload seen as a sequence, for stating
/// contracts.
pub open spec fn decoded_view(r: Result<Response, Error>) -> Result<Seq<u16>, Error> {
    match r {
        Ok(resp) => Ok(resp.values()),
        Err(e) => Err(e),
    }
}

/// Appends the CRC of everything already in `frame`, low byte first.
fn push_crc(frame: &mut Vec<u8>)
    ensures
        final(frame)@ == with_crc(old(frame)@),
{
    let c = crc16(frame.as_slice());
    proof {
        assert(c & 0xFF < 256 && c >> 8 < 256) by (bit_vector);
    }
    frame.push((c & 0xFF) as u8);
    frame.push((c >> 8) as u8);
    proof {
        assert(frame@ =~= with_crc(old(frame)@));
    }
}

/// Encodes a request frame: slave address, PDU, CRC trailer.
pub fn encode(slave: u8, function: &Function) -> (r: Vec<u8>)
    ensures
        r@ == spec_encode(slave, *function),
{
    let mut frame: Vec<u8> = Vec::new();
    frame.push(slave);
    match function {
        Function::ReadHoldingRegisters { starting_address, quantity } => {
            frame.push(function.code());
            frame.push((*starting_address >> 8) as u8);
            frame.push((*starting_address & 0xFF) as u8);
            frame.push((*quantity >> 8) as u8);
            frame.push((*quantity & 0xFF) as u8);
            proof {
                assert(frame@ =~= spec_request_message(slave, *function));
            }
        },
    }
    push_crc(&mut frame);
    frame
}

/// Encodes the well-formed response frame a slave would answer a
/// holding-register read with: useful for simulators and for checking
/// a decoder against known traffic.
pub fn encode_response(slave: u8, values: &Vec<u16>) -> (r: Vec<u8>)
    requires
        values@.len() <= 125,
    ensures
        r@ == spec_encode_response(slave, values@),
{
    let mut frame: Vec<u8> = Vec::new();
    frame.push(slave);
    frame.push(READ_HOLDING_REGISTERS);
    frame.push((2 * values.len()) as u8);
    let ghost head = seq![slave, READ_HOLDING_REGISTERS, (2 * values@.len()) as u8];
    let mut i: usize = 0;
    while i < values.len()
        invariant
            i <= values@.len(),
            values@.len() <= 125,
            frame@ == head + spec_register_data(values@).take(2 * i),
            head == seq![slave, READ_HOLDING_REGISTERS, (2 * values@.len()) as u8],
        decreases values@.len() - i,
    {
        let v = values[i];
        frame.push((v >> 8) as u8);
        frame.push((v & 0xFF) as u8);
        proof {
            assert(frame@ =~= head + spec_register_data(values@).take(2 * (i + 1)));
        }
        i = i + 1;
    }
    proof {
        assert(frame@ =~= spec_response_message(slave, values@));
    }
    push_crc(&mut frame);
    frame
}

/// Encodes the exception frame a slave would answer function code
/// `code` with, carrying exception code byte `exception`.
pub fn encode_exception_response(slave: u8, code: u8, exception: u8) -> (r: Vec<u8>)
    ensures
        r@ == spec_encode_exception(slave, code, exception),
{
    let mut frame: Vec<u8> = Vec::new();
    frame.push(slave);
    frame.push(code | 0x80);
    frame.push(exception);
    proof {
        assert(frame@ =~= seq![slave, code | 0x80, exception]);
    }
    push_crc(&mut frame);
    frame
}

/// Decodes a received frame against the function of the request it
/// answers, validating length, CRC, function code, and payload shape.
pub fn decode(bytes: &[u8], expected: &Function) -> (r: Result<Response, Error>)
    ensures
        decoded_view(r) == spec_decode(bytes@, *expected),
{
    let n = bytes.len();
    if n < 4 {
        return Err(Error::MalformedFrame);
    }
    let computed = crc16(slice_subrange(bytes, 0, n - 2));
    let stored = ((bytes[n - 1] as u16) << 8) | (bytes[n - 2] as u16);
    if computed != stored {
        return Err(Error::MalformedFrame);
    }
    let code = expected.code();
    if bytes[1] == code | 0x80 {
        if n == 5 {
            return Err(Error::ModbusException(exception_from_byte(bytes[2])));
        } else {
            return Err(Error::MalformedFrame);
        }
    }
    if bytes[1] != code {
        return Err(Error::UnexpectedFunction);
    }
    if n < 5 {
        return Err(Error::MalformedFrame);
    }
    let count = bytes[2];
    if count as usize != n - 5 || count as u32 != 2 * (expected.quantity() as u32) {
        return Err(Error::MalformedFrame);
    }
    let ghost data = bytes@.subrange(3, n - 2);
    let regs = count as usize / 2;
    let mut values: Vec<u16> = Vec::new();
    let mut i: usize = 0;
    while i < regs
        invariant
            i <= regs,
            regs == spec_registers_of(data).len(),
            data == bytes@.subrange(3, bytes@.len() - 2),
            count as int == bytes@.len() - 5,
            regs * 2 <= count,
            bytes@.len() >= 5,
            values@ == spec_registers_of(data).take(i as int),
        decreases regs - i,
    {
        let h = bytes[3 + 2 * i];
        let l = bytes[3 + 2 * i + 1];
        values.push(((h as u16) << 8) | (l as u16));
        proof {
            assert(values@ =~= spec_registers_of(data).take(i + 1));
        }
        i = i + 1;
    }
    proof {
        assert(values@ =~= spec_registers_of(data));
    }
    Ok(Response::Registers(values))
}

/// Splitting a 16-bit value into its bytes and reassembling them gives
/// the value back.
proof fn lemma_word_split(x: u16)
    ensures
        word(hi(x), lo(x)) == x,
{
    assert(word(hi(x), lo(x)) == x) by (bit_vector);
}

/// Two byte pairs that differ somewhere assemble to different words.
proof fn lemma_word_changed(h1: u8, l1: u8, h2: u8, l2: u8)
    requires
        h1 != h2 || l1 != l2,
    ensures
        word(h1, l1) != word(h2, l2),
{
    assert(word(h1, l1) != word(h2, l2)) by (bit_vector)
        requires
            h1 != h2 || l1 != l2,
    ;
}

/// Flipping one bit of a byte changes the byte.
proof fn lemma_bit_flip_changes(b: u8, j: u8)
    requires
        j < 8,
    ensures
        b ^ (1u8 << j) != b,
{
    assert(b ^ (1u8 << j) != b) by (bit_vector)
        requires
            j < 8,
    ;
}

/// Packing register values into byte pairs and reading the pairs back
/// recovers every value bit for bit.
pub proof fn lemma_register_data_round_trip(values: Seq<u16>)
    ensures
        spec_registers_of(spec_register_data(values)) == values,
{
    let data = spec_register_data(values);
    assert forall|i: int| 0 <= i < values.len() implies spec_registers_of(data)[i]
        == values[i] by {
        assert((2 * i) % 2 == 0 && (2 * i) / 2 == i && (2 * i + 1) % 2 == 1 && (2 * i + 1) / 2
            == i);
        assert(data[2 * i] == hi(values[i]));
        assert(data[2 * i + 1] == lo(values[i]));
        lemma_word_split(values[i]);
    };
    assert(spec_registers_of(data) =~= values);
}

/// Round trip: a well-formed response of matching shape decodes back
/// to exactly the register values it was built from.
pub proof fn lemma_response_round_trip(slave: u8, function: Function, values: Seq<u16>)
    requires
        function.valid(),
        values.len() == function.spec_quantity(),
    ensures
        spec_decode(spec_encode_response(slave, values), function) == Ok::<Seq<u16>, Error>(
            values,
        ),
{
    let msg = spec_response_message(slave, values);
    let c = spec_crc16(msg);
    let frame = spec_encode_response(slave, values);
    assert(spec_register_data(values).len() == 2 * values.len());
    assert(frame.len() == msg.len() + 2);
    assert(frame.take(frame.len() - 2) =~= msg);
    assert(frame[frame.len() - 2] == lo(c) && frame[frame.len() - 1] == hi(c));
    lemma_word_split(c);
    assert(stored_crc(frame) == c);
    assert(frame[1] == READ_HOLDING_REGISTERS);
    assert(READ_HOLDING_REGISTERS | 0x80 != READ_HOLDING_REGISTERS) by (bit_vector);
    assert(frame[2] == (2 * values.len()) as u8);
    assert(frame[2] as int == 2 * values.len());
    assert(frame.subrange(3, frame.len() - 2) =~= spec_register_data(values));
    lemma_register_data_round_trip(values);
}

/// CRC rejection, for any frame built by appending a CRC to its
/// message: flipping any single bit makes decoding fail with
/// `MalformedFrame`, whichever bit it is.
pub proof fn lemma_bit_flip_rejected_in_frame(msg: Seq<u8>, expected: Function, i: int, j: u8)
    requires
        msg.len() >= 2,
        0 <= i < with_crc(msg).len(),
        j < 8,
    ensures
        spec_decode(
            with_crc(msg).update(i, with_crc(msg)[i] ^ (1u8 << j)),
            expected,
        ) == Err::<Seq<u16>, Error>(Error::MalformedFrame),
{
    let c = spec_crc16(msg);
    let frame = with_crc(msg);
    let n = msg.len() as int;
    let flipped = frame.update(i, frame[i] ^ (1u8 << j));
    lemma_bit_flip_changes(frame[i], j);
    assert(frame.len() == n + 2);
    let msg2 = flipped.take(flipped.len() - 2);
    if i < n {
        assert(msg2 =~= msg.update(i, frame[i] ^ (1u8 << j)));
        lemma_crc_single_byte_difference(msg, msg2, i);
        assert(flipped[n] == lo(c) && flipped[n + 1] == hi(c));
        lemma_word_split(c);
        assert(stored_crc(flipped) == c);
        assert(spec_crc16(msg2) != stored_crc(flipped));
    } else {
        assert(msg2 =~= msg);
        if i == n {
            assert(stored_crc(flipped) == word(hi(c), lo(c) ^ (1u8 << j)));
            lemma_word_changed(hi(c), lo(c) ^ (1u8 << j), hi(c), lo(c));
        } else {
            assert(stored_crc(flipped) == word(hi(c) ^ (1u8 << j), lo(c)));
            lemma_word_changed(hi(c) ^ (1u8 << j), lo(c), hi(c), lo(c));
        }
        lemma_word_split(c);
        assert(spec_crc16(msg2) != stored_crc(flipped));
    }
}

/// CRC rejection: flipping any single bit of an encoded request frame
/// makes decoding fail with `MalformedFrame`, whichever bit it is.
pub proof fn lemma_bit_flip_rejected(slave: u8, function: Function, i: int, j: u8)
    requires
        0 <= i < spec_encode(slave, function).len(),
        j < 8,
    ensures
        spec_decode(
            spec_encode(slave, function).update(i, spec_encode(slave, function)[i] ^ (1u8 << j)),
            function,
        ) == Err::<Seq<u16>, Error>(Error::MalformedFrame),
{
    let msg = spec_request_message(slave, function);
    assert(msg.len() == 6);
    lemma_bit_flip_rejected_in_frame(msg, function, i, j);
}

/// CRC rejection on the receiving side: flipping any single bit of a
/// well-formed response frame makes decoding fail with
/// `MalformedFrame`.
pub proof fn lemma_bit_flip_rejected_in_response(slave: u8, values: Seq<u16>, expected: Function, i: int, j: u8)
    requires
        0 <= i < spec_encode_response(slave, values).len(),
        j < 8,
    ensures
        spec_decode(
            spec_encode_response(slave, values).update(
                i,
                spec_encode_response(slave, values)[i] ^ (1u8 << j),
            ),
            expected,
        ) == Err::<Seq<u16>, Error>(Error::MalformedFrame),
{
    let msg = spec_response_message(slave, values);
    assert(msg.len() == 3 + 2 * values.len());
    lemma_bit_flip_rejected_in_frame(msg, expected, i, j);
}

/// Exception decoding: a well-formed exception response to the
/// expected function decodes to the `ModbusException` its code byte
/// names.
pub proof fn lemma_exception_decodes(slave: u8, function: Function, exception: u8)
    ensures
        spec_decode(spec_encode_exception(slave, function.spec_code(), exception), function)
            == Err::<Seq<u16>, Error>(
            Error::ModbusException(spec_exception_from_byte(exception)),
        ),
{
    let msg = seq![slave, function.spec_code() | 0x80, exception];
    let c = spec_crc16(msg);
    let frame = spec_encode_exception(slave, function.spec_code(), exception);
    assert(frame.len() == 5);
    assert(frame.take(3) =~= msg);
    assert(frame[3] == lo(c) && frame[4] == hi(c));
    lemma_word_split(c);
    assert(stored_crc(frame) == c);
    assert(frame[1] == function.spec_code() | 0x80);
    assert(frame[2] == exception);
}

} // verus!
