use bie::codec::{decode, encode, BieProtocol, DecodeError, TAG_CLOSE, TAG_END_OF_FILE, TAG_FILE_CHUNK, TAG_PING, TAG_PONG, TAG_TOKEN};

#[test]
fn encode_decode_token_round_trip() {
    let m = BieProtocol::Token("abc123XYZ".to_string());
    let bytes = encode(&m);
    assert_eq!(bytes[0], TAG_TOKEN);
    assert_eq!(&bytes[1..], b"abc123XYZ");
    assert_eq!(decode(&bytes), Ok(BieProtocol::Token("abc123XYZ".to_string())));
}

#[test]
fn encode_decode_file_chunk_round_trip() {
    let m = BieProtocol::FileChunk(vec![0, 1, 2, 254, 255]);
    let bytes = encode(&m);
    assert_eq!(bytes[0], TAG_FILE_CHUNK);
    assert_eq!(&bytes[1..], &[0, 1, 2, 254, 255]);
    assert_eq!(decode(&bytes), Ok(BieProtocol::FileChunk(vec![0, 1, 2, 254, 255])));
}

#[test]
fn encode_decode_payload_free_variants() {
    for (m, tag) in [
        (BieProtocol::EndOfFile, TAG_END_OF_FILE),
        (BieProtocol::Ping, TAG_PING),
        (BieProtocol::Pong, TAG_PONG),
        (BieProtocol::Close, TAG_CLOSE),
    ] {
        let bytes = encode(&m);
        assert_eq!(bytes, vec![tag]);
        assert_eq!(decode(&bytes), Ok(m));
    }
}

#[test]
fn decode_unknown_tag_is_malformed() {
    assert_eq!(decode(&vec![6]), Err(DecodeError::MalformedFrame));
    assert_eq!(decode(&vec![42, 1, 2, 3]), Err(DecodeError::MalformedFrame));
    assert_eq!(decode(&vec![255]), Err(DecodeError::MalformedFrame));
}

#[test]
fn decode_empty_frame_is_malformed() {
    assert_eq!(decode(&Vec::new()), Err(DecodeError::MalformedFrame));
}

#[test]
fn decode_payload_on_payload_free_variant_is_malformed() {
    assert_eq!(decode(&vec![TAG_END_OF_FILE, 1]), Err(DecodeError::MalformedFrame));
    assert_eq!(decode(&vec![TAG_PING, 0]), Err(DecodeError::MalformedFrame));
    assert_eq!(decode(&vec![TAG_CLOSE, 9, 9]), Err(DecodeError::MalformedFrame));
}

#[test]
fn decode_token_with_invalid_utf8_is_malformed() {
    assert_eq!(decode(&vec![TAG_TOKEN, 0xff, 0xfe]), Err(DecodeError::MalformedFrame));
}

#[test]
fn decode_empty_chunk_frame() {
    assert_eq!(decode(&vec![TAG_FILE_CHUNK]), Ok(BieProtocol::FileChunk(Vec::new())));
}
