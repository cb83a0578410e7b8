//! The binary witness container ("wtns"): a header, a section with the
//! field parameters and a section with the values, 32 bytes each.

use vstd::prelude::*;
use crate::bytes::{
    le_bytes, le_value, lemma_le_bytes_len, lemma_le_bytes_of_value, lemma_le_bytes_value,
    lemma_le_value_bound, lemma_pow256_eight, pow256, push_le, read_le,
};
use crate::error::EncodingError;
use crate::field::{
    field_modulus, fit_to_width, fit_width, lemma_fit_width_value, lemma_modulus_le, modulus_bytes,
    modulus_le, FieldElement, ELEMENT_WIDTH,
};

verus! {

/// Format version written in the header.
pub const WTNS_VERSION: u32 = 2;

/// Number of sections in a container.
pub const WTNS_SECTION_COUNT: u32 = 2;

/// Bytes before the first value: header (12), field section (52), and the
/// id and length of the value section (12).
pub const WTNS_PREFIX_LEN: usize = 76;

/// The magic `b"wtns"`.
pub open spec fn wtns_magic() -> Seq<u8> {
    seq![0x77u8, 0x74u8, 0x6eu8, 0x73u8]
}

/// Magic, version and section count.
pub open spec fn wtns_header() -> Seq<u8> {
    wtns_magic() + le_bytes(2, 4) + le_bytes(2, 4)
}

/// Everything before the values of a container holding `n` of them.
pub open spec fn wtns_prefix(n: nat) -> Seq<u8> {
    wtns_header()
        + le_bytes(1, 4) + le_bytes(40, 8) + le_bytes(32, 4) + modulus_le() + le_bytes(n, 4)
        + le_bytes(2, 4) + le_bytes(32 * n, 8)
}

/// The blocks laid one after another.
pub open spec fn payload(blocks: Seq<Seq<u8>>) -> Seq<u8>
    decreases blocks.len(),
{
    if blocks.len() == 0 {
        Seq::empty()
    } else {
        payload(blocks.drop_last()) + blocks.last()
    }
}

/// The container that holds the given 32-byte blocks as its values.
pub open spec fn wtns_bytes(blocks: Seq<Seq<u8>>) -> Seq<u8> {
    wtns_prefix(blocks.len()) + payload(blocks)
}

/// Each value of `w`, fitted to 32 bytes.
pub open spec fn blocks_of(w: Seq<FieldElement>) -> Seq<Seq<u8>> {
    w.map_values(|e: FieldElement| fit_width(e@))
}

/// The bytes of each element.
pub open spec fn views_of(w: Seq<FieldElement>) -> Seq<Seq<u8>> {
    w.map_values(|e: FieldElement| e@)
}

/// A count that the container can state: at least one, at most `u32::MAX`.
pub open spec fn encodable_count(n: nat) -> bool {
    0 < n <= u32::MAX
}

/// Every block is 32 bytes long.
pub open spec fn well_sized(blocks: Seq<Seq<u8>>) -> bool {
    forall|i: int| 0 <= i < blocks.len() ==> #[trigger] blocks[i].len() == 32
}

/// `bytes` is the container of some witness.
pub open spec fn is_wtns(bytes: Seq<u8>) -> bool {
    exists|blocks: Seq<Seq<u8>>|
        encodable_count(blocks.len()) && well_sized(blocks) && #[trigger] wtns_bytes(blocks)
            == bytes
}

/// The `n` consecutive 32-byte blocks of `s`.
pub open spec fn split_blocks(s: Seq<u8>, n: nat) -> Seq<Seq<u8>> {
    Seq::new(n, |i: int| s.subrange(32 * i, 32 * i + 32))
}

pub proof fn lemma_wtns_prefix_len(n: nat)
    ensures
        wtns_prefix(n).len() == 76,
        wtns_prefix(n).subrange(60, 64) == le_bytes(n, 4),
{
    lemma_le_bytes_len(2, 4);
    lemma_le_bytes_len(1, 4);
    lemma_le_bytes_len(40, 8);
    lemma_le_bytes_len(32, 4);
    lemma_le_bytes_len(n, 4);
    lemma_le_bytes_len(32 * n, 8);
    lemma_modulus_le();
    let p = wtns_prefix(n);
    assert(p.subrange(60, 64) =~= le_bytes(n, 4));
}

pub proof fn lemma_payload_len(blocks: Seq<Seq<u8>>)
    requires
        well_sized(blocks),
    ensures
        payload(blocks).len() == 32 * blocks.len(),
    decreases blocks.len(),
{
    if blocks.len() > 0 {
        lemma_payload_len(blocks.drop_last());
    }
}

/// Splitting a payload gives back its blocks.
pub proof fn lemma_split_payload(blocks: Seq<Seq<u8>>)
    requires
        well_sized(blocks),
    ensures
        split_blocks(payload(blocks), blocks.len()) == blocks,
    decreases blocks.len(),
{
    if blocks.len() > 0 {
        let n = blocks.len();
        let front = blocks.drop_last();
        lemma_split_payload(front);
        lemma_payload_len(front);
        let p = payload(blocks);
        assert(p == payload(front) + blocks.last());
        assert forall|i: int| 0 <= i < n implies #[trigger] split_blocks(p, n)[i] == blocks[i] by {
            if i < n - 1 {
                assert(split_blocks(payload(front), (n - 1) as nat)[i] == front[i]);
                assert(p.subrange(32 * i, 32 * i + 32) =~= payload(front).subrange(
                    32 * i,
                    32 * i + 32,
                ));
            } else {
                assert(p.subrange(32 * i, 32 * i + 32) =~= blocks.last());
            }
        }
        assert(split_blocks(p, n) =~= blocks);
    }
}

/// Laying out the blocks of a string of whole blocks gives back the string.
pub proof fn lemma_payload_of_split(s: Seq<u8>, n: nat)
    requires
        s.len() == 32 * n,
    ensures
        payload(split_blocks(s, n)) == s,
        well_sized(split_blocks(s, n)),
    decreases n,
{
    if n > 0 {
        let m = (n - 1) as nat;
        let front = s.subrange(0, (32 * m) as int);
        lemma_payload_of_split(front, m);
        let b = split_blocks(s, n);
        assert forall|i: int| 0 <= i < m implies #[trigger] b.drop_last()[i] == split_blocks(
            front,
            m,
        )[i] by {
            assert(s.subrange(32 * i, 32 * i + 32) =~= front.subrange(32 * i, 32 * i + 32));
        }
        assert(b.drop_last() =~= split_blocks(front, m));
        assert(s =~= front + b.last());
    }
}

/// Two block sequences with one container are equal.
pub proof fn lemma_wtns_bytes_injective(a: Seq<Seq<u8>>, b: Seq<Seq<u8>>)
    requires
        encodable_count(a.len()),
        encodable_count(b.len()),
        well_sized(a),
        well_sized(b),
        wtns_bytes(a) == wtns_bytes(b),
    ensures
        a == b,
{
    lemma_wtns_prefix_len(a.len());
    lemma_wtns_prefix_len(b.len());
    lemma_pow256_eight();
    lemma_le_bytes_value(a.len(), 4);
    lemma_le_bytes_value(b.len(), 4);
    let wa = wtns_bytes(a);
    assert(wa.subrange(60, 64) == wtns_prefix(a.len()).subrange(60, 64));
    assert(wtns_bytes(b).subrange(60, 64) == wtns_prefix(b.len()).subrange(60, 64));
    assert(a.len() == b.len());
    assert(payload(a) =~= wa.subrange(76, wa.len() as int));
    assert(payload(b) =~= wa.subrange(76, wa.len() as int));
    lemma_split_payload(a);
    lemma_split_payload(b);
}

/// What any container of `blocks` shows of its shape.
pub proof fn lemma_wtns_shape(blocks: Seq<Seq<u8>>)
    requires
        encodable_count(blocks.len()),
        well_sized(blocks),
    ensures
        wtns_bytes(blocks).len() == 76 + 32 * blocks.len(),
        wtns_bytes(blocks).subrange(0, 76) == wtns_prefix(blocks.len()),
        wtns_bytes(blocks).subrange(76, (76 + 32 * blocks.len()) as int) == payload(blocks),
        le_value(wtns_bytes(blocks).subrange(60, 64)) == blocks.len(),
{
    let n = blocks.len();
    let all = wtns_bytes(blocks);
    lemma_wtns_prefix_len(n);
    lemma_payload_len(blocks);
    lemma_pow256_eight();
    lemma_le_bytes_value(n, 4);
    assert(all.subrange(0, 76) =~= wtns_prefix(n));
    assert(all.subrange(76, (76 + 32 * n) as int) =~= payload(blocks));
    assert(all.subrange(60, 64) =~= wtns_prefix(n).subrange(60, 64));
}

/// Writes the part of a container that precedes its `n` values.
fn write_prefix(n: u32) -> (r: Vec<u8>)
    ensures
        r@ == wtns_prefix(n as nat),
{
    let mut buf: Vec<u8> = Vec::new();
    // The magic b"wtns".
    buf.push(0x77u8);
    buf.push(0x74u8);
    buf.push(0x6eu8);
    buf.push(0x73u8);
    push_le(&mut buf, WTNS_VERSION as u64, 4);
    push_le(&mut buf, WTNS_SECTION_COUNT as u64, 4);
    // Section 1: element width, field modulus, value count.
    push_le(&mut buf, 1, 4);
    push_le(&mut buf, 8 + ELEMENT_WIDTH as u64, 8);
    push_le(&mut buf, ELEMENT_WIDTH as u64, 4);
    let mut modulus = modulus_bytes();
    buf.append(&mut modulus);
    push_le(&mut buf, n as u64, 4);
    // Section 2: the values.
    push_le(&mut buf, 2, 4);
    push_le(&mut buf, n as u64 * ELEMENT_WIDTH as u64, 8);
    assert(buf@ =~= wtns_prefix(n as nat));
    buf
}

/// Encodes the values, in order, as a witness container: each value is
/// written little-endian and cut or padded to 32 bytes, with no reduction
/// modulo the field.
pub fn parse_bigints_to_witness(bigints: Vec<FieldElement>) -> (r: Result<Vec<u8>, EncodingError>)
    ensures
        bigints@.len() == 0 ==> r == Err::<Vec<u8>, EncodingError>(EncodingError::EmptyWitness),
        bigints@.len() > u32::MAX ==> r == Err::<Vec<u8>, EncodingError>(
            EncodingError::TooManyValues,
        ),
        encodable_count(bigints@.len()) ==> r.is_ok() && r.unwrap()@ == wtns_bytes(
            blocks_of(bigints@),
        ),
{
    let n = bigints.len();
    if n == 0 {
        return Err(EncodingError::EmptyWitness);
    }
    if n > u32::MAX as usize {
        return Err(EncodingError::TooManyValues);
    }
    let mut buf = write_prefix(n as u32);
    let mut i: usize = 0;
    while i < n
        invariant
            n == bigints@.len(),
            i <= n,
            buf@ == wtns_prefix(n as nat) + payload(blocks_of(bigints@).subrange(0, i as int)),
        decreases n - i,
    {
        let mut block = fit_to_width(&bigints[i].bytes);
        proof {
            let done = blocks_of(bigints@).subrange(0, i + 1);
            assert(done.drop_last() =~= blocks_of(bigints@).subrange(0, i as int));
        }
        buf.append(&mut block);
        i = i + 1;
    }
    assert(blocks_of(bigints@).subrange(0, n as int) =~= blocks_of(bigints@));
    Ok(buf)
}

/// Reads a container back into its values, each as the 32 bytes it was
/// written as. Only the layout that `parse_bigints_to_witness` writes is
/// accepted: magic, version, section count, section ids and lengths, element
/// width and field modulus are all checked before any value is read.
pub fn decode_witness(bytes: &[u8]) -> (r: Result<Vec<FieldElement>, EncodingError>)
    ensures
        r.is_ok() <==> is_wtns(bytes@),
        r.is_ok() ==> encodable_count(r.unwrap()@.len()) && well_sized(views_of(r.unwrap()@))
            && wtns_bytes(views_of(r.unwrap()@)) == bytes@,
        r.is_err() ==> r == Err::<Vec<FieldElement>, EncodingError>(EncodingError::Malformed),
{
    let len = bytes.len();
    if len < WTNS_PREFIX_LEN {
        proof {
            if is_wtns(bytes@) {
                let b = choose|b: Seq<Seq<u8>>|
                    encodable_count(b.len()) && well_sized(b) && #[trigger] wtns_bytes(b)
                        == bytes@;
                lemma_wtns_shape(b);
            }
        }
        return Err(EncodingError::Malformed);
    }
    let n = read_le(bytes, 60, 4);
    proof {
        lemma_le_value_bound(bytes@.subrange(60, 64));
        lemma_pow256_eight();
    }
    let expected = write_prefix(n as u32);
    proof {
        lemma_wtns_prefix_len(n as nat);
    }
    let mut k: usize = 0;
    while k < WTNS_PREFIX_LEN
        invariant
            k <= 76 <= len,
            len == bytes@.len(),
            expected@ == wtns_prefix(n as nat),
            expected@.len() == 76,
            n as nat == le_value(bytes@.subrange(60, 64)),
            forall|j: int| 0 <= j < k ==> bytes@[j] == expected@[j],
        decreases 76 - k,
    {
        if bytes[k] != expected[k] {
            proof {
                if is_wtns(bytes@) {
                    let b = choose|b: Seq<Seq<u8>>|
                        encodable_count(b.len()) && well_sized(b) && #[trigger] wtns_bytes(b)
                            == bytes@;
                    lemma_wtns_shape(b);
                    assert(b.len() == n);
                    assert(bytes@.subrange(0, 76)[k as int] == bytes@[k as int]);
                }
            }
            return Err(EncodingError::Malformed);
        }
        k = k + 1;
    }
    if n == 0 || len as u64 != WTNS_PREFIX_LEN as u64 + n * ELEMENT_WIDTH as u64 {
        proof {
            if is_wtns(bytes@) {
                let b = choose|b: Seq<Seq<u8>>|
                    encodable_count(b.len()) && well_sized(b) && #[trigger] wtns_bytes(b)
                        == bytes@;
                lemma_wtns_shape(b);
                assert(b.len() == n);
                assert(len == 76 + 32 * b.len());
            }
        }
        return Err(EncodingError::Malformed);
    }
    let count = n as usize;
    let ghost rest = bytes@.subrange(76, len as int);
    let mut out: Vec<FieldElement> = Vec::new();
    let mut i: usize = 0;
    while i < count
        invariant
            count == n,
            len == 76 + 32 * count,
            len == bytes@.len(),
            rest == bytes@.subrange(76, len as int),
            i <= count,
            out@.len() == i,
            forall|t: int| 0 <= t < i ==> #[trigger] out@[t]@ == split_blocks(rest, count as nat)[t],
        decreases count - i,
    {
        let mut block: Vec<u8> = Vec::new();
        let base: usize = WTNS_PREFIX_LEN + i * ELEMENT_WIDTH;
        let mut j: usize = 0;
        while j < ELEMENT_WIDTH
            invariant
                i < count,
                len == 76 + 32 * count,
                len == bytes@.len(),
                base == 76 + 32 * i,
                j <= 32,
                block@ == bytes@.subrange(base as int, base + j),
            decreases 32 - j,
        {
            block.push(bytes[base + j]);
            j = j + 1;
            assert(block@ =~= bytes@.subrange(base as int, base + j));
        }
        proof {
            assert(block@ =~= rest.subrange(32 * i, 32 * i + 32));
        }
        out.push(FieldElement { bytes: block });
        i = i + 1;
    }
    proof {
        assert(views_of(out@) =~= split_blocks(rest, count as nat));
        lemma_payload_of_split(rest, count as nat);
        assert(bytes@ =~= wtns_prefix(n as nat) + rest);
        assert(encodable_count(views_of(out@).len()) && well_sized(views_of(out@)) && wtns_bytes(
            views_of(out@),
        ) == bytes@);
    }
    Ok(out)
}

/// Decoding the container of a witness succeeds and gives back its values:
/// whatever `decode_witness` returns on `wtns_bytes(blocks_of(w))` has the
/// length of `w` and the same value at each index, for values in
/// `[0, field_modulus())`.
pub proof fn lemma_round_trip(w: Seq<FieldElement>, d: Seq<FieldElement>)
    requires
        encodable_count(w.len()),
        forall|i: int| 0 <= i < w.len() ==> #[trigger] w[i].value() < field_modulus(),
        encodable_count(d.len()),
        well_sized(views_of(d)),
        wtns_bytes(views_of(d)) == wtns_bytes(blocks_of(w)),
    ensures
        is_wtns(wtns_bytes(blocks_of(w))),
        d.len() == w.len(),
        forall|i: int| 0 <= i < w.len() ==> #[trigger] d[i].value() == w[i].value(),
{
    let bw = blocks_of(w);
    assert(well_sized(bw));
    lemma_wtns_bytes_injective(views_of(d), bw);
    crate::field::lemma_modulus_bound();
    assert forall|i: int| 0 <= i < w.len() implies #[trigger] d[i].value() == w[i].value() by {
        assert(views_of(d)[i] == bw[i]);
        assert(w[i].value() < field_modulus());
        lemma_fit_width_value(w[i]@);
    }
}

/// Encoding depends on the values alone: two witnesses whose values agree
/// at every index, each in `[0, field_modulus())`, give byte-identical
/// containers, and so does one witness encoded twice.
pub proof fn lemma_encoding_deterministic(a: Seq<FieldElement>, b: Seq<FieldElement>)
    requires
        a.len() == b.len(),
        forall|i: int| 0 <= i < a.len() ==> #[trigger] a[i].value() == b[i].value(),
        forall|i: int| 0 <= i < a.len() ==> #[trigger] a[i].value() < field_modulus(),
    ensures
        wtns_bytes(blocks_of(a)) == wtns_bytes(blocks_of(b)),
{
    crate::field::lemma_modulus_bound();
    assert forall|i: int| 0 <= i < a.len() implies #[trigger] blocks_of(a)[i] == blocks_of(b)[i] by {
        assert(a[i].value() == b[i].value());
        assert(a[i].value() < field_modulus());
        lemma_fit_width_value(a[i]@);
        lemma_fit_width_value(b[i]@);
        crate::bytes::lemma_le_value_injective(fit_width(a[i]@), fit_width(b[i]@));
    }
    assert(blocks_of(a) =~= blocks_of(b));
}

/// Every value takes exactly 32 bytes, the `i`-th at offset `76 + 32 i`:
/// its little-endian bytes cut or padded with zeros, which denote the value
/// itself whenever it is below `256^32`.
pub proof fn lemma_fixed_width(w: Seq<FieldElement>)
    requires
        encodable_count(w.len()),
    ensures
        wtns_bytes(blocks_of(w)).len() == 76 + 32 * w.len(),
        forall|i: int|
            0 <= i < w.len() ==> #[trigger] wtns_bytes(blocks_of(w)).subrange(
                76 + 32 * i,
                76 + 32 * i + 32,
            ) == fit_width(w[i]@),
        forall|i: int|
            0 <= i < w.len() && w[i].value() < pow256(32) ==> #[trigger] le_value(
                wtns_bytes(blocks_of(w)).subrange(76 + 32 * i, 76 + 32 * i + 32),
            ) == w[i].value(),
{
    let bw = blocks_of(w);
    let all = wtns_bytes(bw);
    let n = w.len();
    assert(well_sized(bw));
    lemma_wtns_shape(bw);
    lemma_split_payload(bw);
    assert forall|i: int| 0 <= i < n implies #[trigger] all.subrange(76 + 32 * i, 76 + 32 * i + 32)
        == fit_width(w[i]@) by {
        assert(split_blocks(payload(bw), n)[i] == bw[i]);
        assert(all.subrange(76 + 32 * i, 76 + 32 * i + 32) =~= payload(bw).subrange(
            32 * i,
            32 * i + 32,
        ));
    }
    assert forall|i: int| 0 <= i < n && w[i].value() < pow256(32) implies #[trigger] le_value(
        all.subrange(76 + 32 * i, 76 + 32 * i + 32),
    ) == w[i].value() by {
        lemma_fit_width_value(w[i]@);
    }
}

/// Every container starts with the magic `b"wtns"`, version 2 and section
/// count 2, each count as four little-endian bytes.
pub proof fn lemma_header(blocks: Seq<Seq<u8>>)
    ensures
        wtns_bytes(blocks).subrange(0, 12) == seq![
            0x77u8, 0x74u8, 0x6eu8, 0x73u8, 2u8, 0u8, 0u8, 0u8, 2u8, 0u8, 0u8, 0u8,
        ],
{
    reveal_with_fuel(le_bytes, 5);
    lemma_wtns_prefix_len(blocks.len());
    assert(wtns_bytes(blocks).subrange(0, 12) =~= seq![
        0x77u8, 0x74u8, 0x6eu8, 0x73u8, 2u8, 0u8, 0u8, 0u8, 2u8, 0u8, 0u8, 0u8,
    ]);
}

} // verus!
