use escrow::codec::{deserialize_record, serialize_record, RECORD_LEN, RECORD_TAG};
use escrow::state::{AccountId, Escrow};

fn sample_record() -> Escrow {
    Escrow {
        seed: 1,
        maker: AccountId::new([1; 32]),
        mint_a: AccountId::new([2; 32]),
        mint_b: AccountId::new([3; 32]),
        receive: 500,
        bump: 254,
    }
}

#[test]
fn serialized_layout_is_exact() {
    let record = sample_record();
    let bytes = serialize_record(&record);
    assert_eq!(bytes.len(), RECORD_LEN);

    let mut expected: Vec<u8> = Vec::new();
    expected.extend_from_slice(&RECORD_TAG);
    expected.extend_from_slice(&1u64.to_le_bytes());
    expected.extend_from_slice(&[1; 32]);
    expected.extend_from_slice(&[2; 32]);
    expected.extend_from_slice(&[3; 32]);
    expected.extend_from_slice(&500u64.to_le_bytes());
    expected.push(254);
    assert_eq!(bytes, expected);
}

#[test]
fn record_round_trips() {
    let record = sample_record();
    let bytes = serialize_record(&record);
    let back = deserialize_record(&bytes).expect("well-formed bytes parse");
    assert_eq!(back.seed, record.seed);
    assert_eq!(back.maker.bytes, record.maker.bytes);
    assert_eq!(back.mint_a.bytes, record.mint_a.bytes);
    assert_eq!(back.mint_b.bytes, record.mint_b.bytes);
    assert_eq!(back.receive, record.receive);
    assert_eq!(back.bump, record.bump);
}

#[test]
fn wrong_length_is_rejected() {
    let mut bytes = serialize_record(&sample_record());
    bytes.pop();
    assert!(deserialize_record(&bytes).is_none());
    assert!(deserialize_record(&Vec::new()).is_none());
}

#[test]
fn wrong_tag_is_rejected() {
    let mut bytes = serialize_record(&sample_record());
    bytes[0] = bytes[0].wrapping_add(1);
    assert!(deserialize_record(&bytes).is_none());
}
