use heimdall::text::decimal_text;
use heimdall::{ConnectionType, DeserializationError, DeviceUpdateMessage};

const WORD: usize = std::mem::size_of::<usize>();

fn create(name: &str, connection: ConnectionType) -> DeviceUpdateMessage {
    DeviceUpdateMessage::Create {
        name: String::from(name),
        connection,
    }
}

fn cpu_mem(name: &str, cpu: f32, mem: f32) -> DeviceUpdateMessage {
    DeviceUpdateMessage::CpuMem {
        name: String::from(name),
        cpu: cpu.to_bits(),
        mem: mem.to_bits(),
    }
}

/// The body in a frame, once the length before it has been checked.
fn body_of(message: DeviceUpdateMessage) -> Vec<u8> {
    let mut buffer: Vec<u8> = message.into();
    let size = blt_utils::deserialize_usize(&mut buffer).unwrap();
    assert_eq!(size, buffer.len());
    buffer
}

#[test]
fn create_is_written_field_by_field() {
    let buffer: Vec<u8> = create("Pi", ConnectionType::Wireless).into();
    let mut expected = Vec::new();
    expected.extend_from_slice(&(8 + WORD + 2 + 8).to_le_bytes());
    expected.extend_from_slice(&[0, 0, 0, 0, 0, 0, 0, 0]);
    expected.extend_from_slice(&2usize.to_le_bytes());
    expected.extend_from_slice(&[80, 105]);
    expected.extend_from_slice(&[2, 0, 0, 0, 0, 0, 0, 0]);
    assert_eq!(buffer, expected);
}

#[test]
fn cpu_mem_is_written_field_by_field() {
    let buffer: Vec<u8> = cpu_mem("Pi", 1.0, -2.5).into();
    let mut expected = Vec::new();
    expected.extend_from_slice(&(8 + WORD + 2 + 8).to_le_bytes());
    expected.extend_from_slice(&[1, 0, 0, 0, 0, 0, 0, 0]);
    expected.extend_from_slice(&2usize.to_le_bytes());
    expected.extend_from_slice(&[80, 105]);
    expected.extend_from_slice(&[0, 0, 128, 63]);
    expected.extend_from_slice(&[0, 0, 32, 192]);
    assert_eq!(buffer, expected);
}

#[test]
fn figures_are_written_as_single_precision_numbers() {
    for value in [0.0f32, 1.5, 99.99, f32::MAX, f32::MIN_POSITIVE, f32::NEG_INFINITY] {
        let mut expected = Vec::new();
        blt_utils::serialize_u8(1, &mut expected);
        blt_utils::serialize_string("disk", &mut expected);
        blt_utils::serialize_f32(value, &mut expected);
        blt_utils::serialize_f32(-value, &mut expected);
        blt_utils::finalize_serialization(&mut expected);
        let buffer: Vec<u8> = cpu_mem("disk", value, -value).into();
        assert_eq!(buffer, expected);
    }
}

#[test]
fn connection_types_are_numbered() {
    for (connection, code) in [
        (ConnectionType::Origin, 0),
        (ConnectionType::Wired, 1),
        (ConnectionType::Wireless, 2),
    ] {
        let body = body_of(create("x", connection));
        assert_eq!(body[body.len() - 8..], [code, 0, 0, 0, 0, 0, 0, 0]);
    }
}

#[test]
fn messages_are_read_back() {
    for name in ["", "Router", "K\u{fc}che", "\u{1f980} crab"] {
        for connection in [
            ConnectionType::Origin,
            ConnectionType::Wired,
            ConnectionType::Wireless,
        ] {
            assert_eq!(
                DeviceUpdateMessage::try_from(body_of(create(name, connection))),
                Ok(create(name, connection))
            );
        }
        assert_eq!(
            DeviceUpdateMessage::try_from(body_of(cpu_mem(name, 12.5, 80.25))),
            Ok(cpu_mem(name, 12.5, 80.25))
        );
    }
}

#[test]
fn trailing_bytes_are_of_no_account() {
    let mut body = body_of(cpu_mem("Pi", 3.0, 4.0));
    body.extend_from_slice(&[1, 2, 3]);
    assert_eq!(
        DeviceUpdateMessage::try_from(body),
        Ok(cpu_mem("Pi", 3.0, 4.0))
    );
}

#[test]
fn bytes_of_a_message_begin_with_its_body() {
    let mut buffer = Vec::new();
    blt_utils::serialize_u8(0, &mut buffer);
    blt_utils::serialize_string("Pi", &mut buffer);
    blt_utils::serialize_u8(1, &mut buffer);
    buffer.push(7);
    let message = DeviceUpdateMessage::try_from(buffer.clone()).unwrap();
    let body = body_of(message);
    assert_eq!(body, buffer[..buffer.len() - 1]);
}

#[test]
fn frames_tell_messages_apart() {
    let frames: Vec<Vec<u8>> = vec![
        create("a", ConnectionType::Wired).into(),
        create("a", ConnectionType::Origin).into(),
        create("b", ConnectionType::Wired).into(),
        cpu_mem("a", 0.0, 0.0).into(),
        cpu_mem("a", 0.0, -0.0).into(),
        cpu_mem("a", -0.0, 0.0).into(),
    ];
    for i in 0..frames.len() {
        for j in 0..i {
            assert_ne!(frames[i], frames[j]);
        }
    }
}

#[test]
fn missing_message_type_is_reported() {
    assert_eq!(
        DeviceUpdateMessage::try_from(vec![0, 0, 0]),
        Err(DeserializationError::UnexpectedByteCount(8, 3))
    );
}

#[test]
fn unexpected_message_type_is_reported() {
    let mut buffer = Vec::new();
    blt_utils::serialize_u8(2, &mut buffer);
    assert_eq!(
        DeviceUpdateMessage::try_from(buffer),
        Err(DeserializationError::InvalidValue(String::from(
            "Unexpected message type: 2"
        )))
    );
    assert_eq!(
        DeviceUpdateMessage::try_from(vec![255; 8]),
        Err(DeserializationError::InvalidValue(String::from(
            "Unexpected message type: 18446744073709551615"
        )))
    );
}

#[test]
fn missing_name_length_is_reported() {
    let mut buffer = Vec::new();
    blt_utils::serialize_u8(1, &mut buffer);
    buffer.push(9);
    assert_eq!(
        DeviceUpdateMessage::try_from(buffer),
        Err(DeserializationError::UnexpectedByteCount(WORD, 1))
    );
}

#[test]
fn missing_name_is_reported() {
    let mut buffer = Vec::new();
    blt_utils::serialize_u8(0, &mut buffer);
    blt_utils::serialize_usize(5, &mut buffer);
    buffer.extend_from_slice(b"abcd");
    assert_eq!(
        DeviceUpdateMessage::try_from(buffer),
        Err(DeserializationError::UnexpectedByteCount(5, 4))
    );
}

#[test]
fn invalid_name_is_reported() {
    let mut buffer = Vec::new();
    blt_utils::serialize_u8(0, &mut buffer);
    blt_utils::serialize_usize(2, &mut buffer);
    buffer.extend_from_slice(&[0xc3, 0x28]);
    blt_utils::serialize_u8(0, &mut buffer);
    assert_eq!(
        DeviceUpdateMessage::try_from(buffer),
        Err(DeserializationError::InvalidString {
            bytes: vec![0xc3, 0x28]
        })
    );
}

#[test]
fn missing_connection_type_is_reported() {
    let mut buffer = Vec::new();
    blt_utils::serialize_u8(0, &mut buffer);
    blt_utils::serialize_string("Pi", &mut buffer);
    buffer.extend_from_slice(&[1, 0, 0, 0, 0, 0, 0]);
    assert_eq!(
        DeviceUpdateMessage::try_from(buffer),
        Err(DeserializationError::UnexpectedByteCount(8, 7))
    );
}

#[test]
fn unexpected_connection_type_is_reported() {
    let mut buffer = Vec::new();
    blt_utils::serialize_u8(0, &mut buffer);
    blt_utils::serialize_string("Pi", &mut buffer);
    blt_utils::serialize_u8(310, &mut buffer);
    assert_eq!(
        DeviceUpdateMessage::try_from(buffer),
        Err(DeserializationError::InvalidValue(String::from(
            "Unexpected connection type: 310"
        )))
    );
}

#[test]
fn missing_figures_are_reported() {
    let mut buffer = Vec::new();
    blt_utils::serialize_u8(1, &mut buffer);
    blt_utils::serialize_string("Pi", &mut buffer);
    buffer.extend_from_slice(&[0, 0, 0]);
    assert_eq!(
        DeviceUpdateMessage::try_from(buffer.clone()),
        Err(DeserializationError::UnexpectedByteCount(4, 3))
    );
    buffer.extend_from_slice(&[0, 0, 0]);
    assert_eq!(
        DeviceUpdateMessage::try_from(buffer),
        Err(DeserializationError::UnexpectedByteCount(4, 2))
    );
}

#[test]
fn numbers_are_put_in_decimal() {
    for n in [0u64, 7, 9, 10, 19, 100, 4064, 1_000_000_007, u64::MAX] {
        assert_eq!(decimal_text(n), n.to_string());
    }
}
