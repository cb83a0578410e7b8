use num_bigint::BigUint;
use rust_rapidsnark::error::EncodingError;
use rust_rapidsnark::field::FieldElement;
use rust_rapidsnark::witness::{decode_witness, parse_bigints_to_witness};
use std::str::FromStr;

const MODULUS: &str =
    "21888242871839275222246405745257275088548364400416034343698204186575808495617";

fn element(decimal: &str) -> FieldElement {
    FieldElement::from_le_bytes(BigUint::from_str(decimal).unwrap().to_bytes_le())
}

fn modulus_le() -> Vec<u8> {
    let mut m = BigUint::from_str(MODULUS).unwrap().to_bytes_le();
    m.resize(32, 0);
    m
}

#[test]
fn encodes_one_and_zero() {
    let w = vec![FieldElement::from_u64(1), FieldElement::from_u64(0)];
    let out = parse_bigints_to_witness(w).unwrap();
    let mut expected: Vec<u8> = Vec::new();
    expected.extend_from_slice(b"wtns");
    expected.extend_from_slice(&[2, 0, 0, 0]);
    expected.extend_from_slice(&[2, 0, 0, 0]);
    expected.extend_from_slice(&[1, 0, 0, 0]);
    expected.extend_from_slice(&[40, 0, 0, 0, 0, 0, 0, 0]);
    expected.extend_from_slice(&[32, 0, 0, 0]);
    expected.extend_from_slice(&modulus_le());
    expected.extend_from_slice(&[2, 0, 0, 0]);
    expected.extend_from_slice(&[2, 0, 0, 0]);
    expected.extend_from_slice(&[64, 0, 0, 0, 0, 0, 0, 0]);
    let mut payload = vec![0u8; 64];
    payload[0] = 1;
    expected.extend_from_slice(&payload);
    assert_eq!(out, expected);
    assert_eq!(out.len(), 76 + 64);
    assert_eq!(out[76], 1);
    assert!(out[77..140].iter().all(|b| *b == 0));
}

#[test]
fn header_is_magic_version_and_section_count() {
    let out = parse_bigints_to_witness(vec![FieldElement::from_u64(7)]).unwrap();
    assert_eq!(&out[0..12], &[0x77, 0x74, 0x6e, 0x73, 2, 0, 0, 0, 2, 0, 0, 0]);
}

#[test]
fn field_modulus_is_written_in_section_one() {
    let out = parse_bigints_to_witness(vec![FieldElement::from_u64(7)]).unwrap();
    assert_eq!(&out[28..60], &modulus_le()[..]);
    assert_eq!(modulus_le()[0], 1);
    assert_eq!(modulus_le()[31], 48);
}

#[test]
fn empty_witness_is_refused() {
    assert_eq!(parse_bigints_to_witness(vec![]), Err(EncodingError::EmptyWitness));
}

#[test]
fn every_value_takes_thirty_two_bytes() {
    let w = vec![
        FieldElement::from_u64(0),
        FieldElement::from_u64(u64::MAX),
        element("21888242871839275222246405745257275088548364400416034343698204186575808495616"),
    ];
    let out = parse_bigints_to_witness(w).unwrap();
    assert_eq!(out.len(), 76 + 3 * 32);
    assert_eq!(&out[68..76], &[96, 0, 0, 0, 0, 0, 0, 0]);
    assert!(out[76..108].iter().all(|b| *b == 0));
    assert_eq!(&out[108..116], &[0xff; 8]);
    assert!(out[116..140].iter().all(|b| *b == 0));
    let mut top = BigUint::from_str(MODULUS).unwrap().to_bytes_le();
    top[0] -= 1;
    assert_eq!(&out[140..172], &top[..]);
}

#[test]
fn oversized_values_are_truncated_to_thirty_two_bytes() {
    let mut bytes: Vec<u8> = (1..=40).collect();
    bytes.push(0);
    let w = vec![FieldElement::from_le_bytes(bytes.clone())];
    let out = parse_bigints_to_witness(w).unwrap();
    assert_eq!(out.len(), 76 + 32);
    assert_eq!(&out[76..108], &bytes[0..32]);
}

#[test]
fn short_values_are_zero_padded() {
    let w = vec![FieldElement::from_le_bytes(vec![0x34, 0x12])];
    let out = parse_bigints_to_witness(w).unwrap();
    assert_eq!(out[76], 0x34);
    assert_eq!(out[77], 0x12);
    assert!(out[78..108].iter().all(|b| *b == 0));
}

#[test]
fn encoding_is_deterministic() {
    let a = parse_bigints_to_witness(vec![FieldElement::from_u64(5), element("123456789012345678901234567890")]).unwrap();
    let b = parse_bigints_to_witness(vec![FieldElement::from_u64(5), element("123456789012345678901234567890")]).unwrap();
    assert_eq!(a, b);
    let c = parse_bigints_to_witness(vec![FieldElement::from_le_bytes(vec![5]), element("123456789012345678901234567890")]).unwrap();
    assert_eq!(a, c);
}

#[test]
fn decode_inverts_encode() {
    let values = [
        "0",
        "1",
        "18446744073709551616",
        "21888242871839275222246405745257275088548364400416034343698204186575808495616",
    ];
    let w: Vec<FieldElement> = values.iter().map(|v| element(v)).collect();
    let out = parse_bigints_to_witness(w).unwrap();
    let back = decode_witness(&out).unwrap();
    assert_eq!(back.len(), values.len());
    for (e, v) in back.iter().zip(values.iter()) {
        assert_eq!(e.bytes.len(), 32);
        assert_eq!(e.to_decimal(), v.to_string());
    }
}

#[test]
fn decode_refuses_malformed_containers() {
    let good = parse_bigints_to_witness(vec![FieldElement::from_u64(3)]).unwrap();
    assert!(decode_witness(&good).is_ok());
    assert_eq!(decode_witness(&good[..75]), Err(EncodingError::Malformed));
    assert_eq!(decode_witness(&good[..good.len() - 1]), Err(EncodingError::Malformed));
    let mut bad_magic = good.clone();
    bad_magic[0] = b'x';
    assert_eq!(decode_witness(&bad_magic), Err(EncodingError::Malformed));
    let mut bad_version = good.clone();
    bad_version[4] = 1;
    assert_eq!(decode_witness(&bad_version), Err(EncodingError::Malformed));
    let mut bad_sections = good.clone();
    bad_sections[8] = 3;
    assert_eq!(decode_witness(&bad_sections), Err(EncodingError::Malformed));
    let mut extra = good.clone();
    extra.push(0);
    assert_eq!(decode_witness(&extra), Err(EncodingError::Malformed));
}

#[test]
fn decode_refuses_zero_values() {
    let mut empty: Vec<u8> = parse_bigints_to_witness(vec![FieldElement::from_u64(3)]).unwrap();
    empty.truncate(76);
    empty[60] = 0;
    empty[68] = 0;
    assert_eq!(decode_witness(&empty), Err(EncodingError::Malformed));
}

#[test]
fn field_element_decimal_text() {
    assert_eq!(FieldElement::from_u64(0).to_decimal(), "0");
    assert_eq!(FieldElement::from_u64(1234567890).to_decimal(), "1234567890");
    assert_eq!(element(MODULUS).to_decimal(), MODULUS);
}
