//! The verification key as JSON, projected from a proving key's header:
//! protocol "groth16", curve "bn128", `nPublic` always 0 (the native
//! verifier does not read it), and each point as base-10 affine
//! coordinates with the projective `z` written as "1" (for G2, "1", "0").

use vstd::prelude::*;
use crate::bigint::{decimal, decimal_of_le, mul_le, rem_le};
use crate::bytes::le_value;
use crate::error::KeyParseError;
use crate::zkey::{
    base_modulus_bytes, base_modulus_le, bytes_at, header_well_sized, key_layout,
    parse_proving_key_header, ProvingKeyHeader,
};

verus! {

/// The inverse of `2^256` modulo the BN254 base field, as 32 little-endian
/// bytes: multiplying by it takes a coordinate out of Montgomery form.
pub open spec fn montgomery_inverse_le() -> Seq<u8> {
    seq![
        55u8, 250, 74, 1, 74, 136, 132, 237, 248, 237, 120, 2, 133, 34, 32, 235,
        217, 146, 68, 183, 207, 233, 99, 207, 57, 198, 229, 89, 113, 21, 103, 46,
    ]
}

fn montgomery_inverse_bytes() -> (r: Vec<u8>)
    ensures
        r@ == montgomery_inverse_le(),
{
    let r: Vec<u8> = vec![
        55u8, 250, 74, 1, 74, 136, 132, 237, 248, 237, 120, 2, 133, 34, 32, 235,
        217, 146, 68, 183, 207, 233, 99, 207, 57, 198, 229, 89, 113, 21, 103, 46,
    ];
    assert(r@ =~= montgomery_inverse_le());
    r
}

pub proof fn lemma_base_modulus_positive()
    ensures
        le_value(base_modulus_le()) > 0,
{
    let q = base_modulus_le();
    assert(q[0] == 71);
    reveal_with_fuel(le_value, 2);
}

/// The base-10 value of a coordinate stored as 32 bytes in Montgomery form.
pub open spec fn coord(b: Seq<u8>) -> Seq<char> {
    decimal(
        (le_value(b) * le_value(montgomery_inverse_le())) % le_value(base_modulus_le()),
    )
}

/// A G1 point: `["x","y","1"]`.
pub open spec fn g1_json(p: Seq<u8>) -> Seq<char> {
    "[\""@ + coord(bytes_at(p, 0, 32)) + "\",\""@ + coord(bytes_at(p, 32, 32)) + "\",\"1\"]"@
}

/// A G2 point: `[["x.c0","x.c1"],["y.c0","y.c1"],["1","0"]]`.
pub open spec fn g2_json(p: Seq<u8>) -> Seq<char> {
    "[[\""@ + coord(bytes_at(p, 0, 32)) + "\",\""@ + coord(bytes_at(p, 32, 32)) + "\"],[\""@
        + coord(bytes_at(p, 64, 32)) + "\",\""@ + coord(bytes_at(p, 96, 32))
        + "\"],[\"1\",\"0\"]]"@
}

/// G1 points separated by commas.
pub open spec fn g1_list_json(points: Seq<Seq<u8>>) -> Seq<char>
    decreases points.len(),
{
    if points.len() == 0 {
        Seq::empty()
    } else if points.len() == 1 {
        g1_json(points[0])
    } else {
        g1_list_json(points.drop_last()) + ","@ + g1_json(points.last())
    }
}

/// The fields of a verification key that do not depend on the key.
pub open spec fn vkey_opening() -> Seq<char> {
    "{\"protocol\":\"groth16\",\"curve\":\"bn128\",\"nPublic\":0,"@
}

/// The points of a verification key, and the closing brace.
pub open spec fn vkey_points_json(
    alpha_1: Seq<u8>,
    beta_2: Seq<u8>,
    gamma_2: Seq<u8>,
    delta_2: Seq<u8>,
    ic: Seq<Seq<u8>>,
) -> Seq<char> {
    "\"vk_alpha_1\":"@ + g1_json(alpha_1) + ",\"vk_beta_2\":"@ + g2_json(beta_2)
        + ",\"vk_gamma_2\":"@ + g2_json(gamma_2) + ",\"vk_delta_2\":"@ + g2_json(delta_2)
        + ",\"IC\":["@ + g1_list_json(ic) + "]}"@
}

/// The verification key of a key with these points.
pub open spec fn vkey_json(
    alpha_1: Seq<u8>,
    beta_2: Seq<u8>,
    gamma_2: Seq<u8>,
    delta_2: Seq<u8>,
    ic: Seq<Seq<u8>>,
) -> Seq<char> {
    vkey_opening() + vkey_points_json(alpha_1, beta_2, gamma_2, delta_2, ic)
}

/// The bytes of each point of `ic`.
pub open spec fn points_of(ic: Seq<Vec<u8>>) -> Seq<Seq<u8>> {
    ic.map_values(|p: Vec<u8>| p@)
}

/// The base-10 value of the coordinate at `off` of point `p`.
fn coordinate(p: &Vec<u8>, off: usize) -> (r: String)
    requires
        off + 32 <= p@.len(),
    ensures
        r@ == coord(bytes_at(p@, off as nat, 32)),
{
    let len: usize = p.len();
    let mut c: Vec<u8> = Vec::new();
    let mut k: usize = 0;
    while k < 32
        invariant
            len == p@.len(),
            off + 32 <= p@.len(),
            k <= 32,
            c@ == p@.subrange(off as int, off + k),
        decreases 32 - k,
    {
        c.push(p[off + k]);
        k = k + 1;
        assert(c@ =~= p@.subrange(off as int, off + k));
    }
    let q = base_modulus_bytes();
    let inv = montgomery_inverse_bytes();
    proof {
        lemma_base_modulus_positive();
    }
    let product = mul_le(c.as_slice(), inv.as_slice());
    let v = rem_le(product.as_slice(), q.as_slice());
    decimal_of_le(v.as_slice())
}

fn append_g1(s: &mut String, p: &Vec<u8>)
    requires
        p@.len() == 64,
    ensures
        final(s)@ == old(s)@ + g1_json(p@),
{
    let x = coordinate(p, 0);
    let y = coordinate(p, 32);
    s.append("[\"");
    s.append(x.as_str());
    s.append("\",\"");
    s.append(y.as_str());
    s.append("\",\"1\"]");
    assert(s@ =~= old(s)@ + g1_json(p@));
}

fn append_g2(s: &mut String, p: &Vec<u8>)
    requires
        p@.len() == 128,
    ensures
        final(s)@ == old(s)@ + g2_json(p@),
{
    let x0 = coordinate(p, 0);
    let x1 = coordinate(p, 32);
    let y0 = coordinate(p, 64);
    let y1 = coordinate(p, 96);
    s.append("[[\"");
    s.append(x0.as_str());
    s.append("\",\"");
    s.append(x1.as_str());
    s.append("\"],[\"");
    s.append(y0.as_str());
    s.append("\",\"");
    s.append(y1.as_str());
    s.append("\"],[\"1\",\"0\"]]");
    assert(s@ =~= old(s)@ + g2_json(p@));
}

/// The points of a proving-key header as the body of a verification key.
fn points_json(header: &ProvingKeyHeader) -> (r: String)
    requires
        header_well_sized(*header),
    ensures
        r@ == vkey_points_json(
            header.alpha_1@,
            header.beta_2@,
            header.gamma_2@,
            header.delta_2@,
            points_of(header.ic@),
        ),
{
    let mut s = String::from_str("\"vk_alpha_1\":");
    append_g1(&mut s, &header.alpha_1);
    s.append(",\"vk_beta_2\":");
    append_g2(&mut s, &header.beta_2);
    s.append(",\"vk_gamma_2\":");
    append_g2(&mut s, &header.gamma_2);
    s.append(",\"vk_delta_2\":");
    append_g2(&mut s, &header.delta_2);
    s.append(",\"IC\":[");
    let ghost head = s@;
    let ghost pts = points_of(header.ic@);
    let n = header.ic.len();
    let mut i: usize = 0;
    proof {
        assert(s@ =~= head + g1_list_json(pts.subrange(0, 0)));
    }
    while i < n
        invariant
            n == header.ic@.len(),
            pts == points_of(header.ic@),
            header_well_sized(*header),
            i <= n,
            s@ == head + g1_list_json(pts.subrange(0, i as int)),
        decreases n - i,
    {
        if i > 0 {
            s.append(",");
        }
        append_g1(&mut s, &header.ic[i]);
        proof {
            let next = pts.subrange(0, i + 1);
            assert(next.drop_last() =~= pts.subrange(0, i as int));
            assert(next.last() == header.ic@[i as int]@);
            assert(s@ =~= head + g1_list_json(next));
        }
        i = i + 1;
    }
    s.append("]}");
    proof {
        assert(pts.subrange(0, n as int) =~= pts);
    }
    s
}

/// The verification key of a proving-key header, as JSON. `nPublic` is 0
/// whatever the header's count of public inputs.
pub fn project_verification_key(header: &ProvingKeyHeader) -> (r: String)
    requires
        header_well_sized(*header),
    ensures
        r@ == vkey_json(
            header.alpha_1@,
            header.beta_2@,
            header.gamma_2@,
            header.delta_2@,
            points_of(header.ic@),
        ),
{
    let mut s = String::from_str("{\"protocol\":\"groth16\",\"curve\":\"bn128\",\"nPublic\":0,");
    let points = points_json(header);
    s.append(points.as_str());
    s
}

/// The points of the IC vector of key `b`.
pub open spec fn ic_points(b: Seq<u8>, n_public: nat, s3: nat) -> Seq<Seq<u8>> {
    Seq::new(n_public + 1, |i: int| bytes_at(b, (s3 + 64 * i) as nat, 64))
}

/// Reads a proving key and projects its verification key as JSON, or
/// says why the bytes are not a Groth16 key over BN254.
pub fn verification_key_json(zkey: &[u8]) -> (r: Result<String, KeyParseError>)
    ensures
        match (r, key_layout(zkey@)) {
            (Ok(s), Ok((n_public, s2, s3))) => s@ == vkey_json(
                bytes_at(zkey@, s2 + 84, 64),
                bytes_at(zkey@, s2 + 212, 128),
                bytes_at(zkey@, s2 + 340, 128),
                bytes_at(zkey@, s2 + 532, 128),
                ic_points(zkey@, n_public, s3),
            ),
            (Err(e), Err(f)) => e == f,
            _ => false,
        },
{
    match parse_proving_key_header(zkey) {
        Ok(h) => {
            proof {
                if let Ok((n_public, s2, s3)) = key_layout(zkey@) {
                    assert(points_of(h.ic@) =~= ic_points(zkey@, n_public, s3));
                }
            }
            Ok(project_verification_key(&h))
        },
        Err(e) => Err(e),
    }
}

/// The front of a concatenation is its first part.
pub proof fn lemma_concat_front(a: Seq<char>, b: Seq<char>)
    ensures
        (a + b).subrange(0, a.len() as int) == a,
{
    assert((a + b).subrange(0, a.len() as int) =~= a);
}

/// The back of a concatenation is its last part.
pub proof fn lemma_concat_back(a: Seq<char>, b: Seq<char>)
    ensures
        (a + b).subrange(a.len() as int, (a + b).len() as int) == b,
{
    assert((a + b).subrange(a.len() as int, (a + b).len() as int) =~= b);
}

/// Whatever the proving key, and whatever its count of public inputs, its
/// verification key opens with protocol "groth16", curve "bn128" and
/// `nPublic` 0.
pub proof fn lemma_projection_opening(
    alpha_1: Seq<u8>,
    beta_2: Seq<u8>,
    gamma_2: Seq<u8>,
    delta_2: Seq<u8>,
    ic: Seq<Seq<u8>>,
)
    ensures
        vkey_json(alpha_1, beta_2, gamma_2, delta_2, ic).subrange(0, 50)
            == "{\"protocol\":\"groth16\",\"curve\":\"bn128\",\"nPublic\":0,"@,
{
    reveal_strlit("{\"protocol\":\"groth16\",\"curve\":\"bn128\",\"nPublic\":0,");
    lemma_concat_front(vkey_opening(), vkey_points_json(alpha_1, beta_2, gamma_2, delta_2, ic));
}

/// Every G1 point of a verification key closes with the projective
/// coordinate "1", and every G2 point with the pair "1", "0".
pub proof fn lemma_projection_padding(p: Seq<u8>)
    ensures
        g1_json(p).subrange(g1_json(p).len() - 6, g1_json(p).len() as int) == "\",\"1\"]"@,
        g2_json(p).subrange(g2_json(p).len() - 13, g2_json(p).len() as int)
            == "\"],[\"1\",\"0\"]]"@,
{
    reveal_strlit("\",\"1\"]");
    reveal_strlit("\"],[\"1\",\"0\"]]");
    let x = coord(bytes_at(p, 0, 32));
    let y = coord(bytes_at(p, 32, 32));
    lemma_concat_back("[\""@ + x + "\",\""@ + y, "\",\"1\"]"@);
    let x1 = coord(bytes_at(p, 32, 32));
    let y0 = coord(bytes_at(p, 64, 32));
    let y1 = coord(bytes_at(p, 96, 32));
    lemma_concat_back(
        "[[\""@ + x + "\",\""@ + x1 + "\"],[\""@ + y0 + "\",\""@ + y1,
        "\"],[\"1\",\"0\"]]"@,
    );
}

} // verus!
