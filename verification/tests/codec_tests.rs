use wasmlib::codec::BytesDecoder;
use wasmlib::codec::BytesEncoder;
use wasmlib::codec::CodecError;
use wasmlib::hashtypes::ScAddress;
use wasmlib::hashtypes::ScAgentId;
use wasmlib::hashtypes::ScHname;
use wasmlib::types::Member;
use wasmlib::types::Token;

#[test]
fn int64_round_trip_full_range() {
    for v in [0i64, 1, -1, 42, i64::MIN, i64::MAX, -1234567890123456789] {
        let mut enc = BytesEncoder::new();
        enc.int64(v);
        let data = enc.data();
        assert_eq!(data.len(), 8);
        let mut dec = BytesDecoder::new(data.as_slice());
        assert_eq!(dec.int64().unwrap(), v);
    }
}

#[test]
fn int64_little_endian_layout() {
    let mut enc = BytesEncoder::new();
    enc.int64(0x0102030405060708);
    assert_eq!(enc.data(), vec![8u8, 7, 6, 5, 4, 3, 2, 1]);
}

#[test]
fn string_round_trip() {
    for s in ["", "x", "hello world", "snowman \u{2603} and \u{1F600}"] {
        let mut enc = BytesEncoder::new();
        enc.string(s);
        let data = enc.data();
        let mut dec = BytesDecoder::new(data.as_slice());
        assert_eq!(dec.string().unwrap(), s);
    }
}

#[test]
fn string_rejects_invalid_utf8() {
    // length prefix 2, then an invalid UTF-8 sequence
    let data = vec![2u8, 0, 0, 0, 0xff, 0xfe];
    let mut dec = BytesDecoder::new(data.as_slice());
    assert_eq!(dec.string().unwrap_err(), CodecError::InvalidUtf8);
}

#[test]
fn truncated_int_fails() {
    let data = vec![1u8, 2, 3, 4, 5, 6, 7];
    let mut dec = BytesDecoder::new(data.as_slice());
    assert_eq!(dec.int64().unwrap_err(), CodecError::Truncated);
}

#[test]
fn truncated_fixed_width_fails() {
    let data = vec![0u8; 32];
    let mut dec = BytesDecoder::new(data.as_slice());
    assert_eq!(dec.address().unwrap_err(), CodecError::Truncated);
    let mut dec2 = BytesDecoder::new(data.as_slice());
    assert_eq!(dec2.agent_id().unwrap_err(), CodecError::Truncated);
}

#[test]
fn truncated_string_payload_fails() {
    // prefix says 5 bytes follow but only 2 do
    let data = vec![5u8, 0, 0, 0, 97, 98];
    let mut dec = BytesDecoder::new(data.as_slice());
    assert_eq!(dec.string().unwrap_err(), CodecError::Truncated);
}

#[test]
fn hname_round_trip() {
    let mut enc = BytesEncoder::new();
    enc.hname(&ScHname(0xdeadbeef));
    let data = enc.data();
    let mut dec = BytesDecoder::new(data.as_slice());
    assert_eq!(dec.hname().unwrap(), ScHname(0xdeadbeef));
}

#[test]
fn bytes_round_trip() {
    let payload = vec![0u8, 255, 7, 9];
    let mut enc = BytesEncoder::new();
    enc.bytes(payload.as_slice());
    let data = enc.data();
    let mut dec = BytesDecoder::new(data.as_slice());
    assert_eq!(dec.bytes().unwrap(), payload);
}

#[test]
fn token_round_trip_example_record() {
    // the example record: equal minter and owner, empty user-defined text
    let id_a = [7u8; 37];
    let token = Token {
        created: 1000,
        description: String::from("x"),
        minted_by: ScAgentId::from_bytes(&id_a),
        owner: ScAgentId::from_bytes(&id_a),
        supply: 500,
        updated: 1000,
        user_defined: String::new(),
    };
    let bytes = token.to_bytes();
    let back = Token::from_bytes(bytes.as_slice()).unwrap();
    assert_eq!(back.created, 1000);
    assert_eq!(back.description, "x");
    assert!(back.minted_by == token.minted_by);
    assert!(back.owner == token.owner);
    assert!(back.minted_by == back.owner);
    assert_eq!(back.supply, 500);
    assert_eq!(back.updated, 1000);
    assert_eq!(back.user_defined, "");
}

#[test]
fn token_round_trip_negative_and_extremes() {
    let token = Token {
        created: i64::MIN,
        description: String::from("a longer description, with punctuation!"),
        minted_by: ScAgentId::from_bytes(&[1u8; 37]),
        owner: ScAgentId::from_bytes(&[2u8; 37]),
        supply: -1,
        updated: i64::MAX,
        user_defined: String::from("\u{00e9}\u{00e8}"),
    };
    let bytes = token.to_bytes();
    let back = Token::from_bytes(bytes.as_slice()).unwrap();
    assert_eq!(back.created, i64::MIN);
    assert_eq!(back.description, token.description);
    assert!(back.minted_by == token.minted_by);
    assert!(back.owner == token.owner);
    assert_eq!(back.supply, -1);
    assert_eq!(back.updated, i64::MAX);
    assert_eq!(back.user_defined, token.user_defined);
}

#[test]
fn token_truncated_fails() {
    let token = Token {
        created: 5,
        description: String::from("d"),
        minted_by: ScAgentId::from_bytes(&[3u8; 37]),
        owner: ScAgentId::from_bytes(&[4u8; 37]),
        supply: 6,
        updated: 7,
        user_defined: String::from("u"),
    };
    let bytes = token.to_bytes();
    for cut in [0, 1, 7, 8, 12, 13, 40, bytes.len() - 1] {
        assert!(Token::from_bytes(&bytes[..cut]).is_err());
    }
}

#[test]
fn member_round_trip() {
    let m = Member { address: ScAddress::from_bytes(&[9u8; 33]), factor: -77 };
    let bytes = m.to_bytes();
    let back = Member::from_bytes(bytes.as_slice()).unwrap();
    assert!(back.address == m.address);
    assert_eq!(back.factor, -77);
}

#[test]
fn member_truncated_fails() {
    let m = Member { address: ScAddress::from_bytes(&[9u8; 33]), factor: 1 };
    let bytes = m.to_bytes();
    assert!(Member::from_bytes(&bytes[..32]).is_err());
    assert!(Member::from_bytes(&bytes[..40]).is_err());
    assert!(Member::from_bytes(&[]).is_err());
}
