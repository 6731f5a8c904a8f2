use fdcanusb::{CanFdFrame, FdCanUSBFrame, InvalidFrameLength, ParseError};

const PAYLOAD: [u8; 21] = [
    1, 0, 10, 13, 32, 0, 0, 192, 127, 13, 39, 0, 0, 0, 64, 17, 0, 31, 1, 19, 13,
];

fn line_of(frame: CanFdFrame) -> String {
    let encoded = FdCanUSBFrame::encode(frame);
    String::from_utf8(encoded.as_bytes().to_vec()).unwrap()
}

fn decode_str(line: &str) -> Result<CanFdFrame, ParseError> {
    CanFdFrame::decode(&FdCanUSBFrame::from_line(line))
}

#[test]
fn test_can_fd_frame_encode() {
    let frame = CanFdFrame::new(0x8001, &PAYLOAD).unwrap();
    let encode_frame = FdCanUSBFrame::encode(frame);
    assert_eq!(
        encode_frame.as_bytes(),
        "can send 8001 01000A0D200000C07F0D270000004011001F01130D505050\n".as_bytes()
    );
}

#[test]
fn test_can_fd_frame_decode() {
    let frame =
        FdCanUSBFrame::from_line("rcv 8001 01000A0D200000C07F0D270000004011001F01130D505050\n");
    let decode_frame = CanFdFrame::decode(&frame).expect("Failed to decode frame");
    assert_eq!(decode_frame.arbitration_id, 0x8001);
    assert_eq!(
        decode_frame.data,
        vec![
            0x01, 0x00, 0x0A, 0x0D, 0x20, 0x00, 0x00, 0xC0, 0x7F, 0x0D, 0x27, 0x00, 0x00, 0x00,
            0x40, 0x11, 0x00, 0x1F, 0x01, 0x13, 0x0D, 0x50, 0x50, 0x50,
        ]
    );
}

#[test]
fn test_can_fd_frame_flags_encode() {
    let frame =
        CanFdFrame::new_with_flags(0x8001, &PAYLOAD, None, Some(true), None, None, None).unwrap();
    let encode_frame = FdCanUSBFrame::encode(frame);
    assert_eq!(
        encode_frame.as_bytes(),
        "can send 8001 01000A0D200000C07F0D270000004011001F01130D505050 B\n".as_bytes()
    );
}

#[test]
fn test_can_fd_frame_flags_decode() {
    let frame = FdCanUSBFrame::from_line(
        "rcv 8001 01000A0D200000C07F0D270000004011001F01130D505050 e B F r f-1 t0100",
    );
    let decode_frame = CanFdFrame::decode(&frame).expect("Failed to decode frame");
    assert_eq!(decode_frame.arbitration_id, 0x8001);
    assert_eq!(
        decode_frame.data,
        vec![
            1, 0, 10, 13, 32, 0, 0, 192, 127, 13, 39, 0, 0, 0, 64, 17, 0, 31, 1, 19, 13, 80, 80,
            80,
        ]
    );
    assert_eq!(decode_frame.brs, Some(true));
}

#[test]
fn flags_decode_reads_every_flag() {
    let f = decode_str("rcv 8001 01000A0D200000C07F0D270000004011001F01130D505050 e B F r f-1 t0100")
        .unwrap();
    assert_eq!(f.extended_id, Some(false));
    assert_eq!(f.brs, Some(true));
    assert_eq!(f.fd_can_frame, Some(true));
    assert_eq!(f.remote_frame, Some(false));
    assert_eq!(f.timestamp, Some(100));
}

#[test]
fn padding_ladder() {
    for (len, target) in [(0usize, 0usize), (8, 8), (9, 12), (12, 12), (13, 16), (20, 20), (21, 24), (25, 32), (33, 48), (49, 64), (64, 64)] {
        let data: Vec<u8> = (0..len).map(|i| i as u8).collect();
        let line = line_of(CanFdFrame::new(0x0001, &data).unwrap());
        let hex: String = data.iter().map(|b| format!("{:02X}", b)).collect();
        let expected = format!("can send 0001 {}{}\n", hex, "50".repeat(target - len));
        assert_eq!(line, expected, "payload of {} bytes", len);
    }
}

#[test]
fn padding_of_nine_bytes_is_twelve() {
    let line = line_of(CanFdFrame::new(0x0102, &[0xAB; 9]).unwrap());
    assert_eq!(line, "can send 0102 ABABABABABABABABAB505050\n");
}

#[test]
fn padding_of_twenty_bytes_is_none() {
    let line = line_of(CanFdFrame::new(0x0102, &[0x11; 20]).unwrap());
    assert_eq!(line, format!("can send 0102 {}\n", "11".repeat(20)));
}

#[test]
fn padding_of_thirty_three_bytes_is_forty_eight() {
    let line = line_of(CanFdFrame::new(0x0102, &[0x22; 33]).unwrap());
    assert_eq!(line, format!("can send 0102 {}{}\n", "22".repeat(33), "50".repeat(15)));
}

#[test]
fn padding_of_sixty_four_bytes_is_exact() {
    let line = line_of(CanFdFrame::new(0xFFFF, &[0xFE; 64]).unwrap());
    assert_eq!(line, format!("can send FFFF {}\n", "FE".repeat(64)));
}

#[test]
fn flag_case_carries_value() {
    let set = line_of(CanFdFrame::new_with_flags(0x10, &[1], None, Some(true), None, None, None).unwrap());
    let unset = line_of(CanFdFrame::new_with_flags(0x10, &[1], None, Some(false), None, None, None).unwrap());
    let none = line_of(CanFdFrame::new_with_flags(0x10, &[1], None, None, None, None, None).unwrap());
    assert_eq!(set, "can send 0010 01 B\n");
    assert_eq!(unset, "can send 0010 01 b\n");
    assert_eq!(none, "can send 0010 01\n");
}

#[test]
fn flag_order_and_omitted_fields() {
    let line = line_of(
        CanFdFrame::new_with_flags(0xABCD, &[0xFF, 0x00], Some(true), Some(false), Some(true), Some(false), Some(7))
            .unwrap(),
    );
    assert_eq!(line, "can send ABCD FF00 b F r\n");
}

#[test]
fn encode_id_is_big_endian_upper_hex() {
    let line = line_of(CanFdFrame::new(0x0A0B, &[0xca, 0xfe]).unwrap());
    assert_eq!(line, "can send 0A0B CAFE\n");
}

#[test]
fn round_trip_through_echo() {
    for len in [1usize, 5, 8, 9, 17, 40, 64] {
        let data: Vec<u8> = (0..len).map(|i| (i * 37 % 256) as u8).collect();
        let frame = CanFdFrame::new(0x1234, &data).unwrap();
        let line = line_of(frame);
        let echo = format!("rcv{}", &line["can send".len()..]);
        let decoded = decode_str(&echo).unwrap();
        assert_eq!(decoded.arbitration_id, 0x1234);
        assert_eq!(&decoded.data[..len], &data[..]);
        assert!(decoded.data[len..].iter().all(|&b| b == 0x50));
        assert_eq!(decoded.brs, None);
        assert_eq!(decoded.timestamp, None);
    }
}

#[test]
fn constructor_rejects_sixty_five_bytes() {
    let r = CanFdFrame::new(0x1, &[0u8; 65]);
    assert_eq!(r.unwrap_err(), InvalidFrameLength(65));
    let r = CanFdFrame::new_with_flags(0x1, &[0u8; 65], None, None, None, None, None);
    assert_eq!(r.unwrap_err(), InvalidFrameLength(65));
}

#[test]
fn constructor_accepts_sixty_four_bytes() {
    let f = CanFdFrame::new(0x1, &[9u8; 64]).unwrap();
    assert_eq!(f.data.len(), 64);
    assert_eq!(f.brs, None);
}

#[test]
fn decode_wrong_first_token() {
    match decode_str("xyz 8001 01") {
        Err(ParseError::UnexpectedData { expected, received }) => {
            assert_eq!(expected, "rcv");
            assert_eq!(received, "xyz");
        }
        other => panic!("unexpected {:?}", other),
    }
}

#[test]
fn decode_empty_line() {
    for line in ["", "   \r\n"] {
        match decode_str(line) {
            Err(ParseError::UnexpectedEOL { expected }) => assert_eq!(expected, "rcv"),
            other => panic!("unexpected {:?}", other),
        }
    }
}

#[test]
fn decode_missing_id_and_data() {
    match decode_str("rcv\n") {
        Err(ParseError::UnexpectedEOL { expected }) => assert_eq!(expected, "id"),
        other => panic!("unexpected {:?}", other),
    }
    match decode_str("rcv 0001") {
        Err(ParseError::UnexpectedEOL { expected }) => assert_eq!(expected, "data"),
        other => panic!("unexpected {:?}", other),
    }
}

#[test]
fn decode_bad_id() {
    assert!(matches!(decode_str("rcv 1G 00"), Err(ParseError::ID(_))));
    assert!(matches!(decode_str("rcv 10000 00"), Err(ParseError::ID(_))));
    assert!(matches!(decode_str("rcv  0001 00"), Err(ParseError::ID(_))));
}

#[test]
fn decode_id_forms() {
    assert_eq!(decode_str("rcv ffff 00").unwrap().arbitration_id, 0xFFFF);
    assert_eq!(decode_str("rcv +7 00").unwrap().arbitration_id, 7);
    assert_eq!(decode_str("rcv 0 00").unwrap().arbitration_id, 0);
}

#[test]
fn decode_bad_data() {
    assert!(matches!(decode_str("rcv 0001 123"), Err(ParseError::Data(_))));
    assert!(matches!(decode_str("rcv 0001 zz"), Err(ParseError::Data(_))));
}

#[test]
fn decode_data_of_either_case() {
    assert_eq!(decode_str("rcv 0001 aBcD").unwrap().data, vec![0xAB, 0xCD]);
    match decode_str("rcv 0001 ") {
        Err(ParseError::UnexpectedEOL { expected }) => assert_eq!(expected, "data"),
        other => panic!("unexpected {:?}", other),
    }
}

#[test]
fn decode_flag_with_trailing_data() {
    match decode_str("rcv 0001 00 f-1 F") {
        Err(ParseError::UnexpectedFlagData { flag, data }) => {
            assert_eq!(flag, "f");
            assert_eq!(data, "-1");
        }
        other => panic!("unexpected {:?}", other),
    }
    match decode_str("rcv 0001 00 Bx") {
        Err(ParseError::UnexpectedFlagData { flag, data }) => {
            assert_eq!(flag, "b");
            assert_eq!(data, "x");
        }
        other => panic!("unexpected {:?}", other),
    }
}

#[test]
fn decode_timestamp() {
    assert_eq!(decode_str("rcv 0001 00 t4294967295").unwrap().timestamp, Some(u32::MAX));
    assert_eq!(decode_str("rcv 0001 00 t").unwrap().timestamp, None);
    assert!(matches!(decode_str("rcv 0001 00 t4294967296"), Err(ParseError::TimeStamp(_))));
    assert!(matches!(decode_str("rcv 0001 00 t12x"), Err(ParseError::TimeStamp(_))));
}

#[test]
fn decode_first_token_of_a_letter_counts() {
    let f = decode_str("rcv 0001 00 r R e").unwrap();
    assert_eq!(f.remote_frame, Some(false));
    assert_eq!(f.extended_id, Some(false));
    assert_eq!(f.brs, None);
    assert_eq!(f.fd_can_frame, None);
}

#[test]
fn decode_trims_surrounding_white_space() {
    let f = decode_str("\t rcv 00FF 0102 E\r\n").unwrap();
    assert_eq!(f.arbitration_id, 0xFF);
    assert_eq!(f.data, vec![1, 2]);
    assert_eq!(f.extended_id, Some(true));
}

#[test]
fn from_line_keeps_text() {
    let line = FdCanUSBFrame::from_line("anything at all");
    assert_eq!(line.as_bytes(), b"anything at all");
}

#[test]
fn decode_refuses_payload_over_sixty_four_bytes() {
    let line = format!("rcv 0 {}", "0".repeat(130));
    assert!(matches!(decode_str(&line), Err(ParseError::DataLength(65))));
    let line = format!("rcv 0 {}", "0".repeat(128));
    assert_eq!(decode_str(&line).unwrap().data.len(), 64);
}
