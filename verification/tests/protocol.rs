use mipush_zygisk::protocol::{
    check_request, check_response, decode_frame_header, decode_query, decode_response,
    encode_frame, encode_query, encode_response, FrameHeader, ProtocolError, MAX_FRAME, QUERY,
    RESPONSE, STATUS_OK, STATUS_REJECTED,
};

#[test]
fn query_round_trip() {
    let encoded = encode_query("com.example.app", "com.example.app:push");
    assert_eq!(
        decode_query(&encoded).unwrap(),
        ("com.example.app", "com.example.app:push")
    );
}

#[test]
fn rejects_oversized_payload() {
    assert_eq!(
        encode_frame(QUERY, &vec![0; MAX_FRAME as usize + 1]),
        Err(ProtocolError::FrameTooLarge)
    );
}

#[test]
fn query_bytes_are_package_newline_process() {
    assert_eq!(encode_query("a.b", "a.b:c"), b"a.b\na.b:c".to_vec());
}

#[test]
fn decode_query_trims_and_keeps_rest_after_first_newline() {
    assert_eq!(decode_query(b"  a.b \n x\ny ").unwrap(), ("a.b", "x\ny"));
}

#[test]
fn decode_query_errors() {
    assert_eq!(decode_query(&[0xff, 0x0a, 0x41]), Err(ProtocolError::NotUtf8));
    assert_eq!(decode_query(b"a.b"), Err(ProtocolError::MissingIdentity));
    assert_eq!(decode_query(b"a.b\n   "), Err(ProtocolError::MissingIdentity));
    assert_eq!(decode_query(b" \nproc"), Err(ProtocolError::MissingIdentity));
}

#[test]
fn response_round_trip_and_errors() {
    assert_eq!(encode_response(true), vec![STATUS_OK]);
    assert_eq!(encode_response(false), vec![STATUS_REJECTED]);
    assert_eq!(decode_response(&encode_response(true)), Ok(true));
    assert_eq!(decode_response(&encode_response(false)), Ok(false));
    assert_eq!(decode_response(&[]), Err(ProtocolError::BadResponse));
    assert_eq!(decode_response(&[2]), Err(ProtocolError::BadResponse));
    assert_eq!(decode_response(&[0, 0]), Err(ProtocolError::BadResponse));
}

#[test]
fn frame_header_layout_and_round_trip() {
    let frame = encode_frame(0x0102, &[7, 8, 9]).unwrap();
    assert_eq!(
        frame,
        vec![b'M', b'P', b'Z', b'K', 0, 1, 1, 2, 0, 0, 0, 3, 0, 0, 0, 0, 7, 8, 9]
    );
    let mut header = [0u8; 16];
    header.copy_from_slice(&frame[..16]);
    assert_eq!(
        decode_frame_header(&header),
        Ok(FrameHeader { kind: 0x0102, length: 3 })
    );
    let full = encode_frame(RESPONSE, &vec![1; MAX_FRAME as usize]).unwrap();
    header.copy_from_slice(&full[..16]);
    assert_eq!(
        decode_frame_header(&header),
        Ok(FrameHeader { kind: RESPONSE, length: MAX_FRAME })
    );
}

#[test]
fn frame_header_errors() {
    let mut header = [0u8; 16];
    header[..4].copy_from_slice(b"MPZX");
    assert_eq!(decode_frame_header(&header), Err(ProtocolError::BadMagic));
    header[..4].copy_from_slice(b"MPZK");
    header[5] = 2;
    assert_eq!(decode_frame_header(&header), Err(ProtocolError::UnsupportedVersion));
    header[5] = 1;
    header[10] = 0x10;
    header[11] = 0x01;
    assert_eq!(decode_frame_header(&header), Err(ProtocolError::FrameTooLarge));
}

#[test]
fn request_and_response_kinds_are_checked() {
    let payload = encode_query("a.b", "a.b");
    assert_eq!(check_request(RESPONSE, &payload), Err(ProtocolError::UnexpectedKind));
    assert_eq!(check_request(QUERY, &payload), Ok(("a.b", "a.b")));
    assert_eq!(check_response(QUERY, &[STATUS_OK]), Err(ProtocolError::UnexpectedKind));
    assert_eq!(check_response(RESPONSE, &[STATUS_OK]), Ok(true));
}
