use modbus_rtu_core::codec::{decode, encode, encode_exception_response, encode_response, Response};
use modbus_rtu_core::crc::crc16;
use modbus_rtu_core::error::{Error, ExceptionCode};
use modbus_rtu_core::function::Function;

fn read_fn(starting_address: u16, quantity: u16) -> Function {
    Function::read_holding_registers(starting_address, quantity).unwrap()
}

fn with_crc(mut msg: Vec<u8>) -> Vec<u8> {
    let c = crc16(&msg);
    msg.push((c & 0xFF) as u8);
    msg.push((c >> 8) as u8);
    msg
}

#[test]
fn crc_matches_reference_vector() {
    // The canonical read-holding-registers example frame:
    // 01 03 00 00 00 02 C4 0B.
    assert_eq!(crc16(&[0x01, 0x03, 0x00, 0x00, 0x00, 0x02]), 0x0BC4);
}

#[test]
fn crc_of_empty_message_is_initial_value() {
    assert_eq!(crc16(&[]), 0xFFFF);
}

#[test]
fn encode_request_frame() {
    let frame = encode(0x01, &read_fn(0x0000, 2));
    assert_eq!(frame, vec![0x01, 0x03, 0x00, 0x00, 0x00, 0x02, 0xC4, 0x0B]);
}

#[test]
fn encode_request_frame_big_endian_fields() {
    let frame = encode(0x11, &read_fn(0x6B03, 0x007D));
    assert_eq!(&frame[..6], &[0x11, 0x03, 0x6B, 0x03, 0x00, 0x7D]);
    let c = crc16(&frame[..6]);
    assert_eq!(frame[6], (c & 0xFF) as u8);
    assert_eq!(frame[7], (c >> 8) as u8);
}

#[test]
fn response_round_trip() {
    let values: Vec<u16> = vec![0x1234, 0xABCD, 0x0007];
    let frame = encode_response(0x09, &values);
    let decoded = decode(&frame, &read_fn(0x0005, 3));
    assert_eq!(decoded, Ok(Response::Registers(values)));
}

#[test]
fn response_round_trip_extreme_values() {
    let values: Vec<u16> = vec![0x0000, 0xFFFF];
    let frame = encode_response(0x01, &values);
    let decoded = decode(&frame, &read_fn(0x0000, 2));
    assert_eq!(decoded, Ok(Response::Registers(values)));
}

#[test]
fn single_bit_flips_rejected() {
    let frame = encode(0x01, &read_fn(0x0000, 2));
    let expected = read_fn(0x0000, 2);
    for i in 0..frame.len() {
        for j in 0..8 {
            let mut corrupted = frame.clone();
            corrupted[i] ^= 1u8 << j;
            assert_eq!(decode(&corrupted, &expected), Err(Error::MalformedFrame));
        }
    }
}

#[test]
fn single_bit_flips_rejected_in_response() {
    let frame = encode_response(0x01, &vec![10, 11]);
    let expected = read_fn(0x0000, 2);
    for i in 0..frame.len() {
        for j in 0..8 {
            let mut corrupted = frame.clone();
            corrupted[i] ^= 1u8 << j;
            assert_eq!(decode(&corrupted, &expected), Err(Error::MalformedFrame));
        }
    }
}

#[test]
fn exception_response_decodes() {
    let frame = encode_exception_response(0x01, 0x03, 0x02);
    assert_eq!(frame[1], 0x83);
    let decoded = decode(&frame, &read_fn(0x0000, 2));
    assert_eq!(
        decoded,
        Err(Error::ModbusException(ExceptionCode::IllegalDataAddress))
    );
}

#[test]
fn exception_codes_map_to_variants() {
    let expected = read_fn(0x0000, 1);
    let cases: Vec<(u8, ExceptionCode)> = vec![
        (0x01, ExceptionCode::IllegalFunction),
        (0x02, ExceptionCode::IllegalDataAddress),
        (0x03, ExceptionCode::IllegalDataValue),
        (0x04, ExceptionCode::SlaveDeviceFailure),
        (0x0A, ExceptionCode::Other(0x0A)),
    ];
    for (byte, code) in cases {
        let frame = encode_exception_response(0x01, 0x03, byte);
        assert_eq!(decode(&frame, &expected), Err(Error::ModbusException(code)));
    }
}

#[test]
fn quantity_bounds() {
    assert_eq!(
        Function::read_holding_registers(0x0000, 126),
        Err(Error::InvalidRequestParameters)
    );
    assert_eq!(
        Function::read_holding_registers(0x0000, 125),
        Ok(Function::ReadHoldingRegisters { starting_address: 0x0000, quantity: 125 })
    );
    assert_eq!(
        Function::read_holding_registers(0x0000, 0),
        Err(Error::InvalidRequestParameters)
    );
}

#[test]
fn short_frame_rejected() {
    let expected = read_fn(0x0000, 2);
    assert_eq!(decode(&[], &expected), Err(Error::MalformedFrame));
    assert_eq!(decode(&[0x01, 0x03, 0x04], &expected), Err(Error::MalformedFrame));
    // A four-byte frame with a valid CRC has no byte-count field.
    let frame = with_crc(vec![0x01, 0x03]);
    assert_eq!(frame.len(), 4);
    assert_eq!(decode(&frame, &expected), Err(Error::MalformedFrame));
}

#[test]
fn wrong_function_code_rejected() {
    let frame = with_crc(vec![0x01, 0x04, 0x02, 0x00, 0x0A]);
    assert_eq!(
        decode(&frame, &read_fn(0x0000, 1)),
        Err(Error::UnexpectedFunction)
    );
}

#[test]
fn byte_count_mismatch_rejected() {
    // Declared count disagrees with the bytes that follow.
    let frame = with_crc(vec![0x01, 0x03, 0x04, 0x00, 0x0A]);
    assert_eq!(decode(&frame, &read_fn(0x0000, 2)), Err(Error::MalformedFrame));
    // Count matches the frame but not the requested quantity.
    let frame = with_crc(vec![0x01, 0x03, 0x02, 0x00, 0x0A]);
    assert_eq!(decode(&frame, &read_fn(0x0000, 2)), Err(Error::MalformedFrame));
    // Odd count can never be register data.
    let frame = with_crc(vec![0x01, 0x03, 0x03, 0x00, 0x0A, 0x0B]);
    assert_eq!(decode(&frame, &read_fn(0x0000, 2)), Err(Error::MalformedFrame));
}

#[test]
fn oversized_exception_frame_rejected() {
    let frame = with_crc(vec![0x01, 0x83, 0x02, 0x00]);
    assert_eq!(decode(&frame, &read_fn(0x0000, 2)), Err(Error::MalformedFrame));
}

#[test]
fn registers_getter_returns_values() {
    let values: Vec<u16> = vec![1, 2, 3];
    let response = Response::Registers(values.clone());
    assert_eq!(response.registers(), &values);
}
