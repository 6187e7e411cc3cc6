use aicli::error::AppError;
use aicli::frame::decode_frame;
use aicli::frame::encode_frame;
use aicli::frame::payload_len;
use aicli::types::PacketType;

const ALL_TYPES: [(PacketType, u8); 14] = [
    (PacketType::CmdAuthRequest, 0x00),
    (PacketType::CmdAuthChallenge, 0x8A),
    (PacketType::CmdAuthResponse, 0x0A),
    (PacketType::CmdExec, 0x01),
    (PacketType::CmdList, 0x02),
    (PacketType::CmdGet, 0x03),
    (PacketType::CmdDelete, 0x04),
    (PacketType::CmdResend, 0x05),
    (PacketType::CmdUpdate, 0x06),
    (PacketType::AttachmentChunk, 0x10),
    (PacketType::Ack, 0x80),
    (PacketType::ResponseList, 0x81),
    (PacketType::ResponseChatLog, 0x82),
    (PacketType::Error, 0xFF),
];

#[test]
fn packet_types_have_their_wire_values() {
    for (packet_type, value) in ALL_TYPES {
        assert_eq!(packet_type.to_u8(), value);
        assert_eq!(PacketType::from_u8(value), Some(packet_type));
    }
}

#[test]
fn only_fourteen_bytes_name_a_packet_type() {
    let mut known = 0;
    for value in 0..=255u8 {
        if let Some(packet_type) = PacketType::from_u8(value) {
            assert_eq!(packet_type.to_u8(), value);
            known += 1;
        }
    }
    assert_eq!(known, 14);
    assert_eq!(PacketType::from_u8(0x07), None);
    assert_eq!(PacketType::from_u8(0x7F), None);
}

#[test]
fn encode_writes_type_length_and_payload() {
    assert_eq!(
        encode_frame(PacketType::CmdExec, b"hello"),
        vec![0x01, 0, 0, 0, 5, b'h', b'e', b'l', b'l', b'o']
    );
    assert_eq!(encode_frame(PacketType::Ack, b""), vec![0x80, 0, 0, 0, 0]);
    let long = vec![7u8; 0x0102_03];
    let frame = encode_frame(PacketType::ResponseChatLog, &long);
    assert_eq!(&frame[..5], &[0x82, 0x00, 0x01, 0x02, 0x03]);
    assert_eq!(frame.len(), 5 + 0x0102_03);
}

#[test]
fn decode_gives_back_every_type_and_payload() {
    let payloads: [&[u8]; 3] = [b"", b"x", b"some longer payload \x00\xff"];
    for (packet_type, _) in ALL_TYPES {
        for payload in payloads {
            let bytes = encode_frame(packet_type, payload);
            let (frame, used) = decode_frame(&bytes).unwrap().unwrap();
            assert_eq!(frame.packet_type, packet_type);
            assert_eq!(frame.payload, payload);
            assert_eq!(used, bytes.len());
        }
    }
}

#[test]
fn decode_takes_one_frame_and_leaves_the_rest() {
    let mut bytes = encode_frame(PacketType::CmdGet, b"abc");
    bytes.extend_from_slice(&encode_frame(PacketType::CmdList, b""));
    let (first, used) = decode_frame(&bytes).unwrap().unwrap();
    assert_eq!(first.packet_type, PacketType::CmdGet);
    assert_eq!(first.payload, b"abc");
    assert_eq!(used, 8);
    let (second, used) = decode_frame(&bytes[8..]).unwrap().unwrap();
    assert_eq!(second.packet_type, PacketType::CmdList);
    assert_eq!(second.payload, b"");
    assert_eq!(used, 5);
}

#[test]
fn decode_of_nothing_is_a_clean_end() {
    assert!(matches!(decode_frame(&[]), Ok(None)));
}

#[test]
fn decode_refuses_an_unknown_type() {
    assert!(matches!(decode_frame(&[0x07, 0, 0, 0, 0]), Err(AppError::ParseError(_))));
    assert!(matches!(decode_frame(&[0x42]), Err(AppError::ParseError(_))));
}

#[test]
fn decode_of_a_cut_frame_is_an_io_error() {
    assert!(matches!(decode_frame(&[0x01]), Err(AppError::Io(_))));
    assert!(matches!(decode_frame(&[0x01, 0, 0, 0]), Err(AppError::Io(_))));
    assert!(matches!(decode_frame(&[0x01, 0, 0, 0, 2, 9]), Err(AppError::Io(_))));
}

#[test]
fn payload_len_reads_big_endian() {
    assert_eq!(payload_len(&[0x01, 0x12, 0x34, 0x56, 0x78]), 0x1234_5678);
    assert_eq!(payload_len(&[0x01, 0xff, 0xff, 0xff, 0xff]), u32::MAX);
}

#[test]
fn errors_display_their_category_and_message() {
    let m = || "m".to_string();
    assert_eq!(AppError::Io(m()).to_text(), "I/O Error: m");
    assert_eq!(
        AppError::IoWithContext { context: "c".to_string(), source: "s".to_string() }.to_text(),
        "I/O Error: c (s)"
    );
    assert_eq!(AppError::JsonError(m()).to_text(), "JSON parsing error: m");
    assert_eq!(AppError::Bs58Error(m()).to_text(), "Base58 decoding error: m");
    assert_eq!(AppError::Utf8Error(m()).to_text(), "UTF-8 conversion error: m");
    assert_eq!(AppError::ParseError(m()).to_text(), "Protocol parsing error: m");
    assert_eq!(AppError::NetworkError(m()).to_text(), "Network error: m");
    assert_eq!(AppError::DbError(m()).to_text(), "Database error: m");
    assert_eq!(AppError::AiServiceError(m()).to_text(), "AI service error: m");
    assert_eq!(AppError::ConfigError(m()).to_text(), "Configuration error: m");
    assert_eq!(AppError::AuthError(m()).to_text(), "Authentication failed: m");
}
