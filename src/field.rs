//! Elements of the BN254 scalar field as little-endian byte strings.

use vstd::prelude::*;
use crate::bigint::{decimal, decimal_of_le};
use crate::bytes::{le_bytes, le_value, lemma_le_value_append, lemma_le_value_bound, lemma_le_value_zeros, pow256, zeros};

verus! {

/// Bytes that each witness value takes in the container.
pub const ELEMENT_WIDTH: usize = 32;

/// The order of the BN254 scalar field.
pub open spec fn field_modulus() -> nat {
    // 21888242871839275222246405745257275088548364400416034343698204186575808495617
    2188824287183927522224640 * 100000000000000000000000000 * 100000000000000000000000000
        + 57452572750885483644004160 * 100000000000000000000000000
        + 34343698204186575808495617
}

/// The field modulus as 32 little-endian bytes.
pub open spec fn modulus_le() -> Seq<u8> {
    seq![
        1u8, 0, 0, 240, 147, 245, 225, 67, 145, 112, 185, 121, 72, 232, 51, 40,
        93, 88, 129, 129, 182, 69, 80, 184, 41, 160, 49, 225, 114, 78, 100, 48,
    ]
}

pub proof fn lemma_modulus_le()
    ensures
        modulus_le().len() == 32,
        le_value(modulus_le()) == field_modulus(),
{
    reveal_with_fuel(le_value, 33);
    let m = modulus_le();
    assert(m.drop_first() =~= m.subrange(1, 32));
}

pub proof fn lemma_modulus_bound()
    ensures
        field_modulus() < pow256(32),
{
    lemma_modulus_le();
    lemma_le_value_bound(modulus_le());
}

/// An integer held as little-endian bytes of any length; values meant for
/// the container lie in `[0, field_modulus())`.
#[derive(Debug, Clone, PartialEq, Eq)]
pub struct FieldElement {
    pub bytes: Vec<u8>,
}

impl View for FieldElement {
    type V = Seq<u8>;

    open spec fn view(&self) -> Seq<u8> {
        self.bytes@
    }
}

impl FieldElement {
    /// The integer this element denotes.
    pub open spec fn value(&self) -> nat {
        le_value(self.bytes@)
    }

    pub fn from_le_bytes(bytes: Vec<u8>) -> (r: FieldElement)
        ensures
            r@ == bytes@,
    {
        FieldElement { bytes }
    }

    /// The value in base 10.
    pub fn to_decimal(&self) -> (r: String)
        ensures
            r@ == decimal(self.value()),
    {
        decimal_of_le(self.bytes.as_slice())
    }

    pub fn from_u64(x: u64) -> (r: FieldElement)
        ensures
            r@ == le_bytes(x as nat, 8),
            r.value() == x,
    {
        let mut bytes: Vec<u8> = Vec::new();
        crate::bytes::push_le(&mut bytes, x, 8);
        proof {
            crate::bytes::lemma_pow256_eight();
            crate::bytes::lemma_le_bytes_value(x as nat, 8);
        }
        FieldElement { bytes }
    }
}

/// `b` cut or padded with zero bytes to exactly `ELEMENT_WIDTH` bytes.
pub open spec fn fit_width(b: Seq<u8>) -> Seq<u8> {
    if b.len() >= 32 {
        b.subrange(0, 32)
    } else {
        b + zeros((32 - b.len()) as nat)
    }
}

/// Fitting to the width keeps every value below `256^32`.
pub proof fn lemma_fit_width_value(b: Seq<u8>)
    requires
        le_value(b) < pow256(32),
    ensures
        fit_width(b).len() == 32,
        le_value(fit_width(b)) == le_value(b),
{
    if b.len() >= 32 {
        let head = b.subrange(0, 32);
        let tail = b.subrange(32, b.len() as int);
        assert(b =~= head + tail);
        lemma_le_value_append(head, tail);
        let p = pow256(32);
        let t = le_value(tail);
        let h = le_value(head);
        assert(t == 0) by (nonlinear_arith)
            requires
                h + p * t < p,
        ;
    } else {
        let pad = zeros((32 - b.len()) as nat);
        lemma_le_value_append(b, pad);
        lemma_le_value_zeros((32 - b.len()) as nat);
    }
}

/// The field modulus as a byte vector.
pub fn modulus_bytes() -> (r: Vec<u8>)
    ensures
        r@ == modulus_le(),
{
    let r: Vec<u8> = vec![
        1u8, 0, 0, 240, 147, 245, 225, 67, 145, 112, 185, 121, 72, 232, 51, 40,
        93, 88, 129, 129, 182, 69, 80, 184, 41, 160, 49, 225, 114, 78, 100, 48,
    ];
    assert(r@ =~= modulus_le());
    r
}

/// `b` cut or padded to exactly `ELEMENT_WIDTH` bytes.
pub fn fit_to_width(b: &Vec<u8>) -> (r: Vec<u8>)
    ensures
        r@ == fit_width(b@),
{
    let mut r: Vec<u8> = Vec::new();
    let mut k: usize = 0;
    while k < ELEMENT_WIDTH
        invariant
            k <= 32,
            r@.len() == k,
            forall|i: int| 0 <= i < k ==> r@[i] == fit_width(b@)[i],
        decreases 32 - k,
    {
        if k < b.len() {
            r.push(b[k]);
        } else {
            r.push(0u8);
        }
        k = k + 1;
    }
    assert(r@ =~= fit_width(b@));
    r
}

} // verus!
