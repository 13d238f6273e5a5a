use bytes::BytesMut;
use dynamixel_driver::{DynamixelDriverError, DynamixelProtocol, Instruction, Status};

#[test]
fn test_message_decode() {
    let mut payload = BytesMut::from(vec![0xFF, 0xFF, 0x01, 0x03, 0x00, 0x20, 0xDB].as_slice());
    let mut codec = DynamixelProtocol {};
    let res = codec.decode(&mut payload).unwrap().unwrap();
    assert_eq!(res, Status::new(1, vec![0x20]));
}

#[test]
fn test_message_seek_and_decode() {
    let mut payload = BytesMut::from(
        vec![0xFF, 0x12, 0x21, 0xFF, 0xFF, 0x01, 0x03, 0x00, 0x20, 0xDB].as_slice(),
    );
    let mut codec = DynamixelProtocol {};
    assert!(codec.decode(&mut payload).unwrap().is_none());
    let res = codec.decode(&mut payload).unwrap().unwrap();
    assert_eq!(res, Status::new(1, vec![0x20]));
}

#[test]
fn test_message_skip_header_error_and_decode() {
    let mut payload = BytesMut::from(
        vec![
            0xFF, 0x12, 0x21, 0xFF, 0xFF, 0x1, 0x1, 0xFF, 0xFF, 0x01, 0x03, 0x00, 0x20, 0xDB,
        ]
        .as_slice(),
    );
    let mut codec = DynamixelProtocol {};
    assert!(codec.decode(&mut payload).unwrap().is_none());
    assert!(std::matches!(
        codec.decode(&mut payload).unwrap_err(),
        DynamixelDriverError::HeaderLenTooSmall(1)
    ));

    assert!(codec.decode(&mut payload).unwrap().is_none());
    let res = codec.decode(&mut payload).unwrap().unwrap();
    assert_eq!(res, Status::new(1, vec![0x20]));
}

#[test]
fn test_message_skip_checksum_error_and_decode() {
    let mut payload =
        BytesMut::from(vec![0xFF, 0xFF, 0xFF, 0x04, 0x03, 0x00, 0x20, 0xD8].as_slice());
    let mut codec = DynamixelProtocol {};
    assert!(std::matches!(
        codec.decode(&mut payload).unwrap_err(),
        DynamixelDriverError::ChecksumError(_, _)
    ));
    let res = codec.decode(&mut payload).unwrap().unwrap();
    assert_eq!(res, Status::new(4, vec![0x20]));
}

#[test]
fn test_input_voltage_error() {
    let mut payload =
        BytesMut::from(vec![0xFF, 0xFF, 0x01, 0x03, 0b00000001, 0x20, 0xDA].as_slice());
    let mut codec = DynamixelProtocol {};
    let err = codec.decode(&mut payload).unwrap_err();
    if let DynamixelDriverError::StatusError(status) = err {
        assert!(status.input_voltage_error);
    } else {
        panic!();
    }
}

#[test]
fn test_angle_limit_error() {
    let mut payload =
        BytesMut::from(vec![0xFF, 0xFF, 0x01, 0x03, 0b00000010, 0x20, 0xD9].as_slice());
    let mut codec = DynamixelProtocol {};
    let err = codec.decode(&mut payload).unwrap_err();
    if let DynamixelDriverError::StatusError(status) = err {
        assert!(status.angle_limit_error);
    } else {
        panic!();
    }
}

#[test]
fn test_overheating_error() {
    let mut payload =
        BytesMut::from(vec![0xFF, 0xFF, 0x01, 0x03, 0b00000100, 0x20, 0xD7].as_slice());
    let mut codec = DynamixelProtocol {};
    let err = codec.decode(&mut payload).unwrap_err();
    if let DynamixelDriverError::StatusError(status) = err {
        assert!(status.overheating_error);
    } else {
        panic!();
    }
}

#[test]
fn test_range_error() {
    let mut payload =
        BytesMut::from(vec![0xFF, 0xFF, 0x01, 0x03, 0b00001000, 0x20, 0xD3].as_slice());
    let mut codec = DynamixelProtocol {};
    let err = codec.decode(&mut payload).unwrap_err();
    if let DynamixelDriverError::StatusError(status) = err {
        assert!(status.range_error);
    } else {
        panic!();
    }
}

#[test]
fn test_checksum_error() {
    let mut payload =
        BytesMut::from(vec![0xFF, 0xFF, 0x01, 0x03, 0b00010000, 0x20, 0xCB].as_slice());
    let mut codec = DynamixelProtocol {};
    let err = codec.decode(&mut payload).unwrap_err();
    if let DynamixelDriverError::StatusError(status) = err {
        assert!(status.checksum_error);
    } else {
        panic!();
    }
}

#[test]
fn test_overload_error() {
    let mut payload =
        BytesMut::from(vec![0xFF, 0xFF, 0x01, 0x03, 0b00100000, 0x20, 0xBB].as_slice());
    let mut codec = DynamixelProtocol {};
    let err = codec.decode(&mut payload).unwrap_err();
    if let DynamixelDriverError::StatusError(status) = err {
        assert!(status.overload_error);
    } else {
        panic!();
    }
}

#[test]
fn test_instruction_error() {
    let mut payload =
        BytesMut::from(vec![0xFF, 0xFF, 0x01, 0x03, 0b01000000, 0x20, 0x9B].as_slice());
    let mut codec = DynamixelProtocol {};
    let err = codec.decode(&mut payload).unwrap_err();
    if let DynamixelDriverError::StatusError(status) = err {
        assert!(status.instruction_error);
    } else {
        panic!();
    }
}

#[test]
fn input_voltage_fault_sets_no_other_flag() {
    let mut payload =
        BytesMut::from(vec![0xFF, 0xFF, 0x01, 0x03, 0b00000001, 0x20, 0xDA].as_slice());
    let mut codec = DynamixelProtocol {};
    let err = codec.decode(&mut payload).unwrap_err();
    match err {
        DynamixelDriverError::StatusError(status) => {
            assert!(status.input_voltage_error);
            assert!(!status.angle_limit_error);
            assert!(!status.overheating_error);
            assert!(!status.range_error);
            assert!(!status.checksum_error);
            assert!(!status.overload_error);
            assert!(!status.instruction_error);
            assert_eq!(status.description(), "input_voltage_error ");
        }
        _ => panic!(),
    }
    assert!(payload.is_empty());
}

#[test]
fn fault_with_two_flags_consumes_the_frame() {
    let mut payload = BytesMut::from(vec![0xFF, 0xFF, 0x01, 0x02, 0x24, 0xD8, 0x77].as_slice());
    let mut codec = DynamixelProtocol {};
    match codec.decode(&mut payload).unwrap_err() {
        DynamixelDriverError::StatusError(status) => {
            assert!(status.overheating_error);
            assert!(status.overload_error);
            assert!(!status.input_voltage_error);
            assert_eq!(status.description(), "overheating_error overload_error ");
        }
        _ => panic!(),
    }
    assert_eq!(&payload[..], &[0x77]);
}

#[test]
fn status_frame_round_trip_leaves_following_bytes() {
    let mut payload =
        BytesMut::from(vec![0xFF, 0xFF, 0x09, 0x04, 0x00, 0x34, 0x12, 0xAC, 0xFF, 0xFF].as_slice());
    let mut codec = DynamixelProtocol {};
    let status = codec.decode(&mut payload).unwrap().unwrap();
    assert_eq!(status, Status::new(9, vec![0x34, 0x12]));
    assert_eq!(status.as_u16().unwrap(), 0x1234);
    assert_eq!(&payload[..], &[0xFF, 0xFF]);
}

#[test]
fn empty_status_frame_round_trip() {
    let mut payload = BytesMut::from(vec![0xFF, 0xFF, 0x05, 0x02, 0x00, 0xF8].as_slice());
    let mut codec = DynamixelProtocol {};
    let status = codec.decode(&mut payload).unwrap().unwrap();
    assert_eq!(status, Status::new(5, vec![]));
    assert!(payload.is_empty());
}

#[test]
fn instruction_packet_decodes_as_its_code_flags() {
    let mut payload = BytesMut::from(Instruction::read_instruction(3, 43, 1).serialize().as_slice());
    let mut codec = DynamixelProtocol {};
    match codec.decode(&mut payload).unwrap_err() {
        DynamixelDriverError::StatusError(status) => {
            assert!(status.angle_limit_error);
            assert!(!status.input_voltage_error);
        }
        _ => panic!(),
    }
    assert!(payload.is_empty());
}

#[test]
fn garbage_before_frame_is_consumed_exactly() {
    let mut payload = BytesMut::from(
        vec![0x12, 0x34, 0xFF, 0x56, 0xFF, 0xFF, 0x01, 0x03, 0x00, 0x20, 0xDB].as_slice(),
    );
    let mut codec = DynamixelProtocol {};
    assert!(codec.decode(&mut payload).unwrap().is_none());
    assert_eq!(payload.len(), 7);
    let res = codec.decode(&mut payload).unwrap().unwrap();
    assert_eq!(res, Status::new(1, vec![0x20]));
    assert!(payload.is_empty());
}

#[test]
fn fewer_than_four_bytes_wait() {
    let mut payload = BytesMut::from(vec![0x12, 0x34, 0x56].as_slice());
    let mut codec = DynamixelProtocol {};
    assert!(codec.decode(&mut payload).unwrap().is_none());
    assert_eq!(&payload[..], &[0x12, 0x34, 0x56]);
}

#[test]
fn buffer_without_header_is_discarded() {
    let mut payload = BytesMut::from(vec![0x12, 0xFF, 0x34, 0x56, 0x78].as_slice());
    let mut codec = DynamixelProtocol {};
    assert!(codec.decode(&mut payload).unwrap().is_none());
    assert!(payload.is_empty());
}

#[test]
fn partial_frame_waits_without_consuming() {
    let mut payload = BytesMut::from(vec![0xFF, 0xFF, 0x01, 0x03, 0x00, 0x20].as_slice());
    let mut codec = DynamixelProtocol {};
    assert!(codec.decode(&mut payload).unwrap().is_none());
    assert_eq!(payload.len(), 6);
    payload.extend_from_slice(&[0xDB]);
    let res = codec.decode(&mut payload).unwrap().unwrap();
    assert_eq!(res, Status::new(1, vec![0x20]));
}

#[test]
fn length_below_two_consumes_one_byte() {
    let mut payload = BytesMut::from(vec![0xFF, 0xFF, 0x01, 0x00, 0x00].as_slice());
    let mut codec = DynamixelProtocol {};
    assert!(matches!(
        codec.decode(&mut payload).unwrap_err(),
        DynamixelDriverError::HeaderLenTooSmall(0)
    ));
    assert_eq!(&payload[..], &[0xFF, 0x01, 0x00, 0x00]);
}

#[test]
fn checksum_mismatch_reports_both_values_and_consumes_one_byte() {
    let mut payload = BytesMut::from(vec![0xFF, 0xFF, 0x01, 0x03, 0x00, 0x20, 0xDC].as_slice());
    let mut codec = DynamixelProtocol {};
    assert!(matches!(
        codec.decode(&mut payload).unwrap_err(),
        DynamixelDriverError::ChecksumError(0xDB, 0xDC)
    ));
    assert_eq!(payload.len(), 6);
}

#[test]
fn encode_appends_the_packet() {
    let mut buf = BytesMut::from(&[0xAA_u8][..]);
    let mut codec = DynamixelProtocol {};
    codec.encode(Instruction::ping(1), &mut buf);
    assert_eq!(&buf[..], &[0xAA, 0xFF, 0xFF, 0x01, 0x02, 0x01, 0xFB]);
}

#[test]
#[should_panic(expected = "overload_error: true")]
fn overload_status_loading() {
    let mut payload = BytesMut::from(
        &[
            0xFF, // header
            0xFF, 0x01, // id
            0x02, // length
            0x24, 0xD8,
        ][..],
    );
    let _error = DynamixelProtocol {}.decode(&mut payload).unwrap();
}

#[test]
#[should_panic(expected = "overheating_error: true")]
fn overheat_status_loading() {
    let mut payload = BytesMut::from(
        &[
            0xFF, // header
            0xFF, 0x01, // id
            0x02, // length
            0x24, 0xD8,
        ][..],
    );
    let _error = DynamixelProtocol {}.decode(&mut payload).unwrap();
}
