//! The header of a Groth16 proving key ("zkey"): the curve, the number of
//! public inputs and the group elements that a verification key holds.
//!
//! A key is the magic `b"zkey"`, a version and a section count (each four
//! little-endian bytes), then sections of a four-byte id, an eight-byte
//! length and that many bytes. Section 1 names the protocol (1 is Groth16),
//! section 2 holds the Groth16 header and section 3 the `nPublic + 1`
//! points of the IC vector. Points are stored as little-endian coordinates
//! in Montgomery form, 32 bytes each.

use vstd::prelude::*;
use crate::bytes::{le_value, lemma_le_value_bound, lemma_pow256_eight, read_le};
use crate::error::KeyParseError;
use crate::field::{modulus_bytes, modulus_le};

verus! {

/// Bytes of one G1 point: two coordinates.
pub const G1_BYTES: usize = 64;

/// Bytes of one G2 point: two coordinates over the quadratic extension.
pub const G2_BYTES: usize = 128;

/// Bytes of the Groth16 header section that are read.
pub const GROTH16_HEADER_BYTES: usize = 660;

/// Offsets within the Groth16 header section.
pub const OFF_N8Q: usize = 0;
pub const OFF_Q: usize = 4;
pub const OFF_N8R: usize = 36;
pub const OFF_R: usize = 40;
pub const OFF_N_PUBLIC: usize = 76;
pub const OFF_ALPHA_1: usize = 84;
pub const OFF_BETA_2: usize = 212;
pub const OFF_GAMMA_2: usize = 340;
pub const OFF_DELTA_2: usize = 532;

/// The magic `b"zkey"`.
pub open spec fn zkey_magic() -> Seq<u8> {
    seq![0x7au8, 0x6bu8, 0x65u8, 0x79u8]
}

/// The order of the BN254 base field as 32 little-endian bytes.
pub open spec fn base_modulus_le() -> Seq<u8> {
    seq![
        71u8, 253, 124, 216, 22, 140, 32, 60, 141, 202, 113, 104, 145, 106, 129, 151,
        93, 88, 129, 129, 182, 69, 80, 184, 41, 160, 49, 225, 114, 78, 100, 48,
    ]
}

/// The order of the BN254 base field as a byte vector.
pub fn base_modulus_bytes() -> (r: Vec<u8>)
    ensures
        r@ == base_modulus_le(),
{
    let r: Vec<u8> = vec![
        71u8, 253, 124, 216, 22, 140, 32, 60, 141, 202, 113, 104, 145, 106, 129, 151,
        93, 88, 129, 129, 182, 69, 80, 184, 41, 160, 49, 225, 114, 78, 100, 48,
    ];
    assert(r@ =~= base_modulus_le());
    r
}

/// The `n` bytes of `b` at `off`.
pub open spec fn bytes_at(b: Seq<u8>, off: nat, n: nat) -> Seq<u8> {
    b.subrange(off as int, (off + n) as int)
}

/// The four bytes at `off` as a number.
pub open spec fn u32_at(b: Seq<u8>, off: nat) -> nat {
    le_value(bytes_at(b, off, 4))
}

/// The eight bytes at `off` as a number.
pub open spec fn u64_at(b: Seq<u8>, off: nat) -> nat {
    le_value(bytes_at(b, off, 8))
}

/// Start and length of the first section with id `id`, looking at `left`
/// sections from offset `off` on.
pub open spec fn find_section(b: Seq<u8>, off: nat, left: nat, id: nat) -> Result<
    (nat, nat),
    KeyParseError,
>
    decreases left,
{
    if left == 0 {
        Err(KeyParseError::MissingSection)
    } else if off + 12 > b.len() {
        Err(KeyParseError::Truncated)
    } else if off + 12 + u64_at(b, off + 4) > b.len() {
        Err(KeyParseError::Truncated)
    } else if u32_at(b, off) == id {
        Ok((off + 12, u64_at(b, off + 4)))
    } else {
        find_section(b, off + 12 + u64_at(b, off + 4), (left - 1) as nat, id)
    }
}

/// The section `id` of the key `b`.
pub open spec fn section(b: Seq<u8>, id: nat) -> Result<(nat, nat), KeyParseError> {
    find_section(b, 12, u32_at(b, 8), id)
}

/// Where the parts of a well-formed key lie: the number of public inputs,
/// the start of the Groth16 header and the start of the IC vector; or why
/// the key is refused.
pub open spec fn key_layout(b: Seq<u8>) -> Result<(nat, nat, nat), KeyParseError> {
    if b.len() < 12 {
        Err(KeyParseError::Truncated)
    } else if b.subrange(0, 4) != zkey_magic() {
        Err(KeyParseError::BadMagic)
    } else {
        match section(b, 1) {
            Err(e) => Err(e),
            Ok((s1, n1)) => if n1 < 4 {
                Err(KeyParseError::Truncated)
            } else if u32_at(b, s1) != 1 {
                Err(KeyParseError::UnsupportedProtocol)
            } else {
                match section(b, 2) {
                    Err(e) => Err(e),
                    Ok((s2, n2)) => if n2 < 660 {
                        Err(KeyParseError::Truncated)
                    } else if u32_at(b, s2) != 32 || bytes_at(b, s2 + 4, 32)
                        != base_modulus_le() || u32_at(b, s2 + 36) != 32 || bytes_at(b, s2 + 40, 32) != modulus_le() {
                        Err(KeyParseError::UnsupportedCurve)
                    } else {
                        match section(b, 3) {
                            Err(e) => Err(e),
                            Ok((s3, n3)) => if n3 < 64 * (u32_at(b, s2 + 76) + 1) {
                                Err(KeyParseError::Truncated)
                            } else {
                                Ok((u32_at(b, s2 + 76), s2, s3))
                            },
                        }
                    },
                }
            },
        }
    }
}

/// The start and length of section `id`.
fn locate_section(b: &[u8], id: u32) -> (r: Result<(usize, usize), KeyParseError>)
    requires
        b@.len() >= 12,
    ensures
        match (r, section(b@, id as nat)) {
            (Ok((s, n)), Ok((t, m))) => s == t && n == m,
            (Err(e), Err(f)) => e == f,
            _ => false,
        },
        r.is_ok() ==> r.unwrap().0 + r.unwrap().1 <= b@.len(),
{
    let len = b.len();
    let count = read_le(b, 8, 4);
    let mut off: usize = 12;
    let mut left: u64 = count;
    while left > 0
        invariant
            len == b@.len(),
            off <= len,
            section(b@, id as nat) == find_section(b@, off as nat, left as nat, id as nat),
        decreases left,
    {
        if len - off < 12 {
            return Err(KeyParseError::Truncated);
        }
        let sid = read_le(b, off, 4);
        let size = read_le(b, off + 4, 8);
        if size > (len - off - 12) as u64 {
            return Err(KeyParseError::Truncated);
        }
        if sid == id as u64 {
            return Ok((off + 12, size as usize));
        }
        off = off + 12 + size as usize;
        left = left - 1;
    }
    Err(KeyParseError::MissingSection)
}

/// The `n` bytes of `b` at `off`, copied.
fn copy_at(b: &[u8], off: usize, n: usize) -> (r: Vec<u8>)
    requires
        off + n <= b@.len(),
    ensures
        r@ == bytes_at(b@, off as nat, n as nat),
{
    let len: usize = b.len();
    let mut r: Vec<u8> = Vec::new();
    let mut k: usize = 0;
    while k < n
        invariant
            len == b@.len(),
            off + n <= b@.len(),
            k <= n,
            r@ == b@.subrange(off as int, off + k),
        decreases n - k,
    {
        r.push(b[off + k]);
        k = k + 1;
        assert(r@ =~= b@.subrange(off as int, off + k));
    }
    r
}

/// Whether the bytes of `b` at `off` are `expected`.
fn equal_at(b: &[u8], off: usize, expected: &Vec<u8>) -> (r: bool)
    requires
        off + expected@.len() <= b@.len(),
    ensures
        r == (bytes_at(b@, off as nat, expected@.len()) == expected@),
{
    let len: usize = b.len();
    let n = expected.len();
    let mut k: usize = 0;
    while k < n
        invariant
            len == b@.len(),
            n == expected@.len(),
            off + n <= b@.len(),
            k <= n,
            forall|j: int| 0 <= j < k ==> b@[off + j] == expected@[j],
        decreases n - k,
    {
        if b[off + k] != expected[k] {
            assert(bytes_at(b@, off as nat, n as nat)[k as int] != expected@[k as int]);
            return false;
        }
        k = k + 1;
    }
    assert(bytes_at(b@, off as nat, n as nat) =~= expected@);
    true
}

/// What a proving key holds for its verification key: the number of public
/// inputs and the encoded points, each as its stored bytes.
pub struct ProvingKeyHeader {
    pub n_public: u32,
    /// G1 point alpha, 64 bytes.
    pub alpha_1: Vec<u8>,
    /// G2 point beta, 128 bytes.
    pub beta_2: Vec<u8>,
    /// G2 point gamma, 128 bytes.
    pub gamma_2: Vec<u8>,
    /// G2 point delta, 128 bytes.
    pub delta_2: Vec<u8>,
    /// The `n_public + 1` G1 points of the IC vector, 64 bytes each.
    pub ic: Vec<Vec<u8>>,
}

/// `h` holds the parts of key `b` laid out as `key_layout` found them.
pub open spec fn header_of(b: Seq<u8>, n_public: nat, s2: nat, s3: nat, h: ProvingKeyHeader) -> bool {
    &&& h.n_public == n_public
    &&& h.alpha_1@ == bytes_at(b, s2 + 84, 64)
    &&& h.beta_2@ == bytes_at(b, s2 + 212, 128)
    &&& h.gamma_2@ == bytes_at(b, s2 + 340, 128)
    &&& h.delta_2@ == bytes_at(b, s2 + 532, 128)
    &&& h.ic@.len() == n_public + 1
    &&& forall|i: int|
        0 <= i <= n_public ==> #[trigger] h.ic@[i]@ == bytes_at(b, (s3 + 64 * i) as nat, 64)
}

/// The header's points have their stored sizes.
pub open spec fn header_well_sized(h: ProvingKeyHeader) -> bool {
    &&& h.alpha_1@.len() == 64
    &&& h.beta_2@.len() == 128
    &&& h.gamma_2@.len() == 128
    &&& h.delta_2@.len() == 128
    &&& forall|i: int| 0 <= i < h.ic@.len() ==> #[trigger] h.ic@[i]@.len() == 64
}

/// Reads the header of a Groth16 proving key over BN254, or says why the
/// bytes are not one.
pub fn parse_proving_key_header(b: &[u8]) -> (r: Result<ProvingKeyHeader, KeyParseError>)
    ensures
        match (r, key_layout(b@)) {
            (Ok(h), Ok((n_public, s2, s3))) => header_of(b@, n_public, s2, s3, h),
            (Err(e), Err(f)) => e == f,
            _ => false,
        },
        r.is_ok() ==> header_well_sized(r.unwrap()),
{
    let len = b.len();
    if len < 12 {
        return Err(KeyParseError::Truncated);
    }
    let magic: Vec<u8> = vec![0x7au8, 0x6bu8, 0x65u8, 0x79u8];
    assert(magic@ =~= zkey_magic());
    if !equal_at(b, 0, &magic) {
        return Err(KeyParseError::BadMagic);
    }
    let (s1, n1) = match locate_section(b, 1) {
        Ok(p) => p,
        Err(e) => {
            return Err(e);
        },
    };
    if n1 < 4 {
        return Err(KeyParseError::Truncated);
    }
    if read_le(b, s1, 4) != 1 {
        return Err(KeyParseError::UnsupportedProtocol);
    }
    let (s2, n2) = match locate_section(b, 2) {
        Ok(p) => p,
        Err(e) => {
            return Err(e);
        },
    };
    if n2 < GROTH16_HEADER_BYTES {
        return Err(KeyParseError::Truncated);
    }
    let q = base_modulus_bytes();
    let r = modulus_bytes();
    if read_le(b, s2 + OFF_N8Q, 4) != 32 || !equal_at(b, s2 + OFF_Q, &q) || read_le(
        b,
        s2 + OFF_N8R,
        4,
    ) != 32 || !equal_at(b, s2 + OFF_R, &r) {
        return Err(KeyParseError::UnsupportedCurve);
    }
    let n_public = read_le(b, s2 + OFF_N_PUBLIC, 4);
    proof {
        lemma_le_value_bound(bytes_at(b@, (s2 + 76) as nat, 4));
        lemma_pow256_eight();
    }
    let (s3, n3) = match locate_section(b, 3) {
        Ok(p) => p,
        Err(e) => {
            return Err(e);
        },
    };
    if (n3 as u64) < (G1_BYTES as u64) * (n_public + 1) {
        return Err(KeyParseError::Truncated);
    }
    let alpha_1 = copy_at(b, s2 + OFF_ALPHA_1, G1_BYTES);
    let beta_2 = copy_at(b, s2 + OFF_BETA_2, G2_BYTES);
    let gamma_2 = copy_at(b, s2 + OFF_GAMMA_2, G2_BYTES);
    let delta_2 = copy_at(b, s2 + OFF_DELTA_2, G2_BYTES);
    let count: usize = n_public as usize + 1;
    let mut ic: Vec<Vec<u8>> = Vec::new();
    let mut i: usize = 0;
    while i < count
        invariant
            count == n_public + 1,
            s3 + n3 <= len,
            len == b@.len(),
            64 * count <= n3,
            i <= count,
            ic@.len() == i,
            forall|t: int| 0 <= t < i ==> #[trigger] ic@[t]@ == bytes_at(b@, (s3 + 64 * t) as nat, 64),
        decreases count - i,
    {
        let p = copy_at(b, s3 + i * G1_BYTES, G1_BYTES);
        ic.push(p);
        i = i + 1;
    }
    Ok(ProvingKeyHeader { n_public: n_public as u32, alpha_1, beta_2, gamma_2, delta_2, ic })
}

} // verus!
