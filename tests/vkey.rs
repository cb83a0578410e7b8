use num_bigint::BigUint;
use rust_rapidsnark::error::KeyParseError;
use rust_rapidsnark::vkey::{project_verification_key, verification_key_json};
use rust_rapidsnark::zkey::parse_proving_key_header;
use std::str::FromStr;

const BASE_MODULUS: &str =
    "21888242871839275222246405745257275088696311157297823662689037894645226208583";
const SCALAR_MODULUS: &str =
    "21888242871839275222246405745257275088548364400416034343698204186575808495617";

fn le32(x: &BigUint) -> Vec<u8> {
    let mut b = x.to_bytes_le();
    b.resize(32, 0);
    b
}

fn montgomery(v: &BigUint) -> Vec<u8> {
    let q = BigUint::from_str(BASE_MODULUS).unwrap();
    le32(&((v << 256u32) % q))
}

fn g1(x: u64, y: u64) -> Vec<u8> {
    let mut p = montgomery(&BigUint::from(x));
    p.extend(montgomery(&BigUint::from(y)));
    p
}

fn g2(a: u64, b: u64, c: u64, d: u64) -> Vec<u8> {
    let mut p = g1(a, b);
    p.extend(g1(c, d));
    p
}

fn section(id: u32, body: &[u8]) -> Vec<u8> {
    let mut s = id.to_le_bytes().to_vec();
    s.extend((body.len() as u64).to_le_bytes());
    s.extend_from_slice(body);
    s
}

fn groth16_header(n_public: u32, q: &[u8]) -> Vec<u8> {
    let mut h = 32u32.to_le_bytes().to_vec();
    h.extend_from_slice(q);
    h.extend(32u32.to_le_bytes());
    h.extend(le32(&BigUint::from_str(SCALAR_MODULUS).unwrap()));
    h.extend(5u32.to_le_bytes());
    h.extend(n_public.to_le_bytes());
    h.extend(8u32.to_le_bytes());
    h.extend(g1(1, 2));
    h.extend(g1(3, 4));
    h.extend(g2(5, 6, 7, 8));
    h.extend(g2(9, 10, 11, 12));
    h.extend(g1(13, 14));
    h.extend(g2(15, 16, 17, 18));
    h
}

fn ic(n_public: u32) -> Vec<u8> {
    let mut v = Vec::new();
    for i in 0..=n_public as u64 {
        v.extend(g1(100 + i, 200 + i));
    }
    v
}

fn key_from(sections: &[Vec<u8>]) -> Vec<u8> {
    let mut k = b"zkey".to_vec();
    k.extend(1u32.to_le_bytes());
    k.extend((sections.len() as u32).to_le_bytes());
    for s in sections {
        k.extend_from_slice(s);
    }
    k
}

fn key(n_public: u32) -> Vec<u8> {
    let q = le32(&BigUint::from_str(BASE_MODULUS).unwrap());
    key_from(&[
        section(1, &1u32.to_le_bytes()),
        section(2, &groth16_header(n_public, &q)),
        section(3, &ic(n_public)),
    ])
}

const EXPECTED: &str = "{\"protocol\":\"groth16\",\"curve\":\"bn128\",\"nPublic\":0,\
    \"vk_alpha_1\":[\"1\",\"2\",\"1\"],\
    \"vk_beta_2\":[[\"5\",\"6\"],[\"7\",\"8\"],[\"1\",\"0\"]],\
    \"vk_gamma_2\":[[\"9\",\"10\"],[\"11\",\"12\"],[\"1\",\"0\"]],\
    \"vk_delta_2\":[[\"15\",\"16\"],[\"17\",\"18\"],[\"1\",\"0\"]],\
    \"IC\":[[\"100\",\"200\",\"1\"],[\"101\",\"201\",\"1\"],[\"102\",\"202\",\"1\"]]}";

#[test]
fn projects_a_key_with_two_public_inputs() {
    assert_eq!(verification_key_json(&key(2)).unwrap(), EXPECTED);
}

#[test]
fn n_public_is_always_zero() {
    for n in [0u32, 1, 5] {
        let json = verification_key_json(&key(n)).unwrap();
        assert!(json.contains("\"nPublic\":0,"));
        assert_eq!(json.matches("\",\"1\"]").count(), 1 + n as usize + 1);
        assert_eq!(json.matches("[\"1\",\"0\"]").count(), 3);
    }
}

#[test]
fn header_fields_are_read() {
    let k = key(2);
    let h = parse_proving_key_header(&k).unwrap();
    assert_eq!(h.n_public, 2);
    assert_eq!(h.alpha_1, g1(1, 2));
    assert_eq!(h.beta_2, g2(5, 6, 7, 8));
    assert_eq!(h.gamma_2, g2(9, 10, 11, 12));
    assert_eq!(h.delta_2, g2(15, 16, 17, 18));
    assert_eq!(h.ic.len(), 3);
    assert_eq!(h.ic[2], g1(102, 202));
    assert_eq!(project_verification_key(&h), EXPECTED);
}

#[test]
fn sections_may_come_in_any_order() {
    let q = le32(&BigUint::from_str(BASE_MODULUS).unwrap());
    let k = key_from(&[
        section(3, &ic(2)),
        section(4, &[9, 9, 9]),
        section(1, &1u32.to_le_bytes()),
        section(2, &groth16_header(2, &q)),
    ]);
    assert_eq!(verification_key_json(&k).unwrap(), EXPECTED);
}

#[test]
fn large_coordinates_leave_montgomery_form() {
    let q = BigUint::from_str(BASE_MODULUS).unwrap();
    let top = &q - 1u32;
    let mut k = key(0);
    let at = 12 + 16 + 12 + 84;
    k[at..at + 32].copy_from_slice(&montgomery(&top));
    let json = verification_key_json(&k).unwrap();
    assert!(json.contains(
        "\"vk_alpha_1\":[\"21888242871839275222246405745257275088696311157297823662689037894645226208582\",\"2\",\"1\"]"
    ));
}

#[test]
fn refuses_bad_magic() {
    let mut k = key(1);
    k[0] = b'x';
    assert_eq!(parse_proving_key_header(&k).err(), Some(KeyParseError::BadMagic));
    assert_eq!(verification_key_json(&k), Err(KeyParseError::BadMagic));
}

#[test]
fn refuses_truncated_keys() {
    let k = key(1);
    assert_eq!(verification_key_json(&k[..8]), Err(KeyParseError::Truncated));
    assert_eq!(verification_key_json(&k[..k.len() - 1]), Err(KeyParseError::Truncated));
    let q = le32(&BigUint::from_str(BASE_MODULUS).unwrap());
    let short_ic = key_from(&[
        section(1, &1u32.to_le_bytes()),
        section(2, &groth16_header(3, &q)),
        section(3, &ic(2)),
    ]);
    assert_eq!(verification_key_json(&short_ic), Err(KeyParseError::Truncated));
}

#[test]
fn refuses_other_protocols() {
    let q = le32(&BigUint::from_str(BASE_MODULUS).unwrap());
    let k = key_from(&[
        section(1, &2u32.to_le_bytes()),
        section(2, &groth16_header(1, &q)),
        section(3, &ic(1)),
    ]);
    assert_eq!(verification_key_json(&k), Err(KeyParseError::UnsupportedProtocol));
}

#[test]
fn refuses_other_curves() {
    let mut q = le32(&BigUint::from_str(BASE_MODULUS).unwrap());
    q[0] ^= 1;
    let k = key_from(&[
        section(1, &1u32.to_le_bytes()),
        section(2, &groth16_header(1, &q)),
        section(3, &ic(1)),
    ]);
    assert_eq!(verification_key_json(&k), Err(KeyParseError::UnsupportedCurve));
}

#[test]
fn refuses_missing_sections() {
    let q = le32(&BigUint::from_str(BASE_MODULUS).unwrap());
    let k = key_from(&[section(1, &1u32.to_le_bytes()), section(2, &groth16_header(1, &q))]);
    assert_eq!(verification_key_json(&k), Err(KeyParseError::MissingSection));
}
