use steam_wire::header::{decode, is_structured, kind_from_id, DecodeError, MessageKind};

/// ChannelEncryptRequest
fn get_channel_encrypt_request() -> [u8; 44] {
    let on_connection_packet: [u8; 44] = [
        23, 5, 0, 0, 255, 255, 255, 255, 255, 255, 255, 255, 255, 255, 255, 255, 255, 255, 255,
        255, 1, 0, 0, 0, 1, 0, 0, 0, 66, 126, 251, 245, 88, 122, 243, 123, 102, 163, 11, 54, 151,
        145, 31, 54,
    ];
    on_connection_packet
}

/// ClientChatEnter, numeric id 807
fn get_example_message() -> [u8; 353] {
    let struct_msg_data: [u8; 353] = [
        0x27, 0x03, 0x00, 0x00, 0x24, 0x02, 0x00, 0xFF, 0xFF, 0xFF, 0xFF, 0xFF, 0xFF, 0xFF, 0xFF,
        0xFF, 0xFF, 0xFF, 0xFF, 0xFF, 0xFF, 0xFF, 0xFF, 0xEF, 0xAC, 0x15, 0x89, 0x00, 0x01, 0x00,
        0x10, 0x01, 0x8E, 0x56, 0x11, 0x00, 0xBC, 0x4E, 0x2A, 0x00, 0x00, 0x00, 0x88, 0x01, 0x00,
        0x00, 0x00, 0x00, 0x00, 0x00, 0x00, 0x00, 0x02, 0x00, 0x00, 0x00, 0xBC, 0x4E, 0x2A, 0x00,
        0x00, 0x00, 0x70, 0x01, 0xBC, 0x4E, 0x2A, 0x00, 0x00, 0x00, 0x70, 0x01, 0x00, 0x01, 0x00,
        0x00, 0x00, 0x04, 0x00, 0x00, 0x00, 0x53, 0x61, 0x78, 0x74, 0x6F, 0x6E, 0x20, 0x48, 0x65,
        0x6C, 0x6C, 0x00, 0x00, 0x4D, 0x65, 0x73, 0x73, 0x61, 0x67, 0x65, 0x4F, 0x62, 0x6A, 0x65,
        0x63, 0x74, 0x00, 0x07, 0x73, 0x74, 0x65, 0x61, 0x6D, 0x69, 0x64, 0x00, 0xAC, 0x15, 0x89,
        0x00, 0x01, 0x00, 0x10, 0x01, 0x02, 0x70, 0x65, 0x72, 0x6D, 0x69, 0x73, 0x73, 0x69, 0x6F,
        0x6E, 0x73, 0x00, 0x7B, 0x03, 0x00, 0x00, 0x02, 0x44, 0x65, 0x74, 0x61, 0x69, 0x6C, 0x73,
        0x00, 0x01, 0x00, 0x00, 0x00, 0x08, 0x08, 0x00, 0x4D, 0x65, 0x73, 0x73, 0x61, 0x67, 0x65,
        0x4F, 0x62, 0x6A, 0x65, 0x63, 0x74, 0x00, 0x07, 0x73, 0x74, 0x65, 0x61, 0x6D, 0x69, 0x64,
        0x00, 0x00, 0x28, 0x90, 0x00, 0x01, 0x00, 0x10, 0x01, 0x02, 0x70, 0x65, 0x72, 0x6D, 0x69,
        0x73, 0x73, 0x69, 0x6F, 0x6E, 0x73, 0x00, 0x08, 0x00, 0x00, 0x00, 0x02, 0x44, 0x65, 0x74,
        0x61, 0x69, 0x6C, 0x73, 0x00, 0x04, 0x00, 0x00, 0x00, 0x08, 0x08, 0x00, 0x4D, 0x65, 0x73,
        0x73, 0x61, 0x67, 0x65, 0x4F, 0x62, 0x6A, 0x65, 0x63, 0x74, 0x00, 0x07, 0x73, 0x74, 0x65,
        0x61, 0x6D, 0x69, 0x64, 0x00, 0xB0, 0xDC, 0x5B, 0x04, 0x01, 0x00, 0x10, 0x01, 0x02, 0x70,
        0x65, 0x72, 0x6D, 0x69, 0x73, 0x73, 0x69, 0x6F, 0x6E, 0x73, 0x00, 0x08, 0x00, 0x00, 0x00,
        0x02, 0x44, 0x65, 0x74, 0x61, 0x69, 0x6C, 0x73, 0x00, 0x00, 0x00, 0x00, 0x00, 0x08, 0x08,
        0x00, 0x4D, 0x65, 0x73, 0x73, 0x61, 0x67, 0x65, 0x4F, 0x62, 0x6A, 0x65, 0x63, 0x74, 0x00,
        0x07, 0x73, 0x74, 0x65, 0x61, 0x6D, 0x69, 0x64, 0x00, 0x39, 0xCB, 0x77, 0x05, 0x01, 0x00,
        0x10, 0x01, 0x02, 0x70, 0x65, 0x72, 0x6D, 0x69, 0x73, 0x73, 0x69, 0x6F, 0x6E, 0x73, 0x00,
        0x1A, 0x03, 0x00, 0x00, 0x02, 0x44, 0x65, 0x74, 0x61, 0x69, 0x6C, 0x73, 0x00, 0x02, 0x00,
        0x00, 0x00, 0x08, 0x08, 0xE8, 0x03, 0x00, 0x00,
    ];
    struct_msg_data
}

#[test]
fn from_raw_data() {
    let on_connection_packet = get_channel_encrypt_request();
    let header = decode(&on_connection_packet).unwrap();

    assert_eq!(header.kind, MessageKind::ChannelEncryptRequest)
}

#[test]
fn from_raw_data_another() {
    let packet = get_example_message();
    let header = decode(&packet).unwrap();

    assert_eq!(header.kind, MessageKind::ClientChatEnter)
}

#[test]
fn check_if_not_protobuf() {
    let on_connection_packet = get_channel_encrypt_request();
    assert!(!is_structured(&on_connection_packet).unwrap())
}

#[test]
fn channel_encrypt_request_not_structured() {
    let header = decode(&get_channel_encrypt_request()).unwrap();
    assert_eq!(header.kind, MessageKind::ChannelEncryptRequest);
    assert!(!header.is_structured);
}

#[test]
fn client_chat_enter_id_807_not_structured() {
    let header = decode(&[0x27, 0x03, 0x00, 0x00]).unwrap();
    assert_eq!(header.kind, MessageKind::ClientChatEnter);
    assert_eq!(kind_from_id(807), MessageKind::ClientChatEnter);
    assert!(!header.is_structured);
}

#[test]
fn too_short_inputs_fail() {
    assert_eq!(decode(&[]), Err(DecodeError::TooShort));
    assert_eq!(decode(&[0x27]), Err(DecodeError::TooShort));
    assert_eq!(decode(&[0x27, 0x03]), Err(DecodeError::TooShort));
    assert_eq!(decode(&[0x27, 0x03, 0x00]), Err(DecodeError::TooShort));
    assert!(decode(&[0x27, 0x03, 0x00, 0x00]).is_ok());

    assert_eq!(is_structured(&[]), Err(DecodeError::TooShort));
    assert_eq!(is_structured(&[0x27, 0x03, 0x00]), Err(DecodeError::TooShort));
    assert!(is_structured(&[0x27, 0x03, 0x00, 0x00]).is_ok());
}

#[test]
fn unknown_id_is_unrecognized_not_error() {
    // Low 31 bits match no catalog entry.
    let header = decode(&[0xFF, 0xFF, 0xFF, 0x7F]).unwrap();
    assert_eq!(header.kind, MessageKind::Unrecognized(0x7FFF_FFFF));
    assert!(!header.is_structured);

    let header = decode(&[0x2A, 0x00, 0x00, 0x00]).unwrap();
    assert_eq!(header.kind, MessageKind::Unrecognized(42));
}

#[test]
fn structured_flag_is_bit_31() {
    // Same low 31 bits as ClientChatEnter, with bit 31 set.
    let header = decode(&[0x27, 0x03, 0x00, 0x80]).unwrap();
    assert_eq!(header.kind, MessageKind::ClientChatEnter);
    assert!(header.is_structured);
    assert!(is_structured(&[0x27, 0x03, 0x00, 0x80]).unwrap());
}

#[test]
fn catalog_entries() {
    assert_eq!(kind_from_id(0), MessageKind::Invalid);
    assert_eq!(kind_from_id(1), MessageKind::Multi);
    assert_eq!(kind_from_id(703), MessageKind::ClientHeartBeat);
    assert_eq!(kind_from_id(751), MessageKind::ClientLogOnResponse);
    assert_eq!(kind_from_id(757), MessageKind::ClientLoggedOff);
    assert_eq!(kind_from_id(1303), MessageKind::ChannelEncryptRequest);
    assert_eq!(kind_from_id(1304), MessageKind::ChannelEncryptResponse);
    assert_eq!(kind_from_id(1305), MessageKind::ChannelEncryptResult);
}
