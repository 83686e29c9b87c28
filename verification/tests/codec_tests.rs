use parity_scale_codec::Encode;
use sassafras_gossip::codec::decode_proof;
use sassafras_gossip::codec::encode_proof;
use sassafras_gossip::message::ProofMessage;

fn msg(id: u64, key_byte: u8, payload: Vec<u8>) -> ProofMessage {
    ProofMessage {
        authority_id: id,
        ephemeral_key: vec![key_byte; 32],
        encrypted_payload: payload,
    }
}

#[test]
fn round_trip_identity() {
    let cases = vec![
        msg(0, 0, vec![]),
        msg(7, 0, vec![1, 2, 3]),
        msg(u64::MAX, 0xff, vec![0; 63]),
        msg(1, 0xab, vec![9; 64]),
        msg(0xdead_beef, 0x55, (0..255u8).collect()),
    ];
    for m in cases {
        let bytes = encode_proof(&m);
        let back = decode_proof(&bytes).expect("canonical encoding must decode");
        assert_eq!(back, m);
    }
}

#[test]
fn round_trip_two_byte_header() {
    let m = msg(3, 1, vec![7; 16383]);
    let bytes = encode_proof(&m);
    assert_eq!(bytes.len(), 8 + 32 + 2 + 16383);
    assert_eq!(decode_proof(&bytes).unwrap(), m);
}

#[test]
fn round_trip_four_byte_header() {
    let m = msg(4, 2, vec![8; 16384]);
    let bytes = encode_proof(&m);
    assert_eq!(bytes.len(), 8 + 32 + 4 + 16384);
    assert_eq!(decode_proof(&bytes).unwrap(), m);
}

#[test]
fn encoding_matches_scale_codec() {
    let payload_lens = [0usize, 1, 3, 63, 64, 255, 16383, 16384, 20000];
    for &n in payload_lens.iter() {
        let payload: Vec<u8> = (0..n).map(|i| (i % 251) as u8).collect();
        let m = msg(0x0123_4567_89ab_cdef, 0x42, payload.clone());
        let mut key = [0x42u8; 32];
        key.copy_from_slice(&m.ephemeral_key);
        let reference = (0x0123_4567_89ab_cdef_u64, key, payload).encode();
        assert_eq!(encode_proof(&m), reference, "payload length {}", n);
    }
}

#[test]
fn concrete_encoding_bytes() {
    let m = msg(7, 0, vec![1, 2, 3]);
    let mut expected = vec![7, 0, 0, 0, 0, 0, 0, 0];
    expected.extend_from_slice(&[0u8; 32]);
    expected.push(3 << 2);
    expected.extend_from_slice(&[1, 2, 3]);
    assert_eq!(encode_proof(&m), expected);
}

#[test]
fn garbage_bytes_decode_to_nothing() {
    assert_eq!(decode_proof(&[]), None);
    assert_eq!(decode_proof(&[1, 2, 3]), None);
    assert_eq!(decode_proof(&[0; 40]), None);
    assert_eq!(decode_proof(&vec![0xff; 1000]), None);
}

#[test]
fn truncated_and_padded_encodings_are_rejected() {
    let m = msg(9, 0xff, vec![5, 6, 7, 8]);
    let bytes = encode_proof(&m);
    let mut truncated = bytes.clone();
    truncated.pop();
    assert_eq!(decode_proof(&truncated), None);
    let mut padded = bytes.clone();
    padded.push(0);
    assert_eq!(decode_proof(&padded), None);
    assert!(decode_proof(&bytes).is_some());
}

#[test]
fn non_canonical_length_header_is_rejected() {
    // A three-byte payload announced through the two-byte header shape:
    // the value fits one byte, so the wider header is not canonical.
    let mut bytes = vec![0u8; 8];
    bytes.extend_from_slice(&[0u8; 32]);
    let v: u16 = (3 << 2) | 1;
    bytes.push((v & 0xff) as u8);
    bytes.push((v >> 8) as u8);
    bytes.extend_from_slice(&[1, 2, 3]);
    assert_eq!(decode_proof(&bytes), None);
}
