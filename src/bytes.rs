//! Little-endian byte strings and the natural numbers they denote.

use vstd::prelude::*;

verus! {

/// `256^n`.
pub open spec fn pow256(n: nat) -> nat
    decreases n,
{
    if n == 0 {
        1
    } else {
        256 * pow256((n - 1) as nat)
    }
}

/// The number that `b` denotes, least significant byte first.
pub open spec fn le_value(b: Seq<u8>) -> nat
    decreases b.len(),
{
    if b.len() == 0 {
        0
    } else {
        b[0] as nat + 256 * le_value(b.drop_first())
    }
}

/// The `n` lowest bytes of `x`, least significant first.
pub open spec fn le_bytes(x: nat, n: nat) -> Seq<u8>
    decreases n,
{
    if n == 0 {
        Seq::empty()
    } else {
        seq![(x % 256) as u8] + le_bytes(x / 256, (n - 1) as nat)
    }
}

pub proof fn lemma_le_bytes_len(x: nat, n: nat)
    ensures
        le_bytes(x, n).len() == n,
    decreases n,
{
    if n > 0 {
        lemma_le_bytes_len(x / 256, (n - 1) as nat);
    }
}

/// `n` zero bytes.
pub open spec fn zeros(n: nat) -> Seq<u8> {
    Seq::new(n, |i: int| 0u8)
}

pub proof fn lemma_pow256_positive(n: nat)
    ensures
        pow256(n) > 0,
    decreases n,
{
    if n > 0 {
        lemma_pow256_positive((n - 1) as nat);
    }
}

pub proof fn lemma_pow256_monotone(a: nat, b: nat)
    requires
        a <= b,
    ensures
        pow256(a) <= pow256(b),
    decreases b,
{
    if a < b {
        lemma_pow256_monotone(a, (b - 1) as nat);
        lemma_pow256_positive((b - 1) as nat);
    }
}

pub proof fn lemma_pow256_eight()
    ensures
        pow256(4) == 0x1_0000_0000,
        pow256(8) == 0x1_0000_0000_0000_0000,
{
    reveal_with_fuel(pow256, 9);
}

/// A value always fits in as many bytes as denote it.
pub proof fn lemma_le_value_bound(b: Seq<u8>)
    ensures
        le_value(b) < pow256(b.len()),
    decreases b.len(),
{
    if b.len() > 0 {
        let rest = b.drop_first();
        lemma_le_value_bound(rest);
        let v = le_value(rest);
        let p = pow256(rest.len());
        let b0 = b[0] as nat;
        assert(b0 + 256 * v < 256 * p) by (nonlinear_arith)
            requires
                b0 < 256,
                v < p,
        ;
    }
}

/// The value of a concatenation.
pub proof fn lemma_le_value_append(a: Seq<u8>, b: Seq<u8>)
    ensures
        le_value(a + b) == le_value(a) + pow256(a.len()) * le_value(b),
    decreases a.len(),
{
    if a.len() == 0 {
        assert(a + b =~= b);
    } else {
        let rest = a.drop_first();
        assert((a + b).drop_first() =~= rest + b);
        assert((a + b)[0] == a[0]);
        assert(pow256(a.len()) == 256 * pow256(rest.len()));
        lemma_le_value_append(rest, b);
        let x = le_value(rest);
        let p = pow256(rest.len());
        let y = le_value(b);
        assert(256 * (x + p * y) == 256 * x + (256 * p) * y) by (nonlinear_arith);
    }
}

/// Zero bytes denote zero.
pub proof fn lemma_le_value_zeros(n: nat)
    ensures
        le_value(zeros(n)) == 0,
    decreases n,
{
    if n > 0 {
        assert(zeros(n).drop_first() =~= zeros((n - 1) as nat));
        lemma_le_value_zeros((n - 1) as nat);
    }
}

/// Writing a value in enough bytes and reading it back gives the value.
pub proof fn lemma_le_bytes_value(x: nat, n: nat)
    requires
        x < pow256(n),
    ensures
        le_bytes(x, n).len() == n,
        le_value(le_bytes(x, n)) == x,
    decreases n,
{
    if n > 0 {
        let m = (n - 1) as nat;
        let p = pow256(m);
        assert(x / 256 < p) by (nonlinear_arith)
            requires
                x < 256 * p,
        ;
        lemma_le_bytes_value(x / 256, m);
        let s = le_bytes(x, n);
        assert(s.drop_first() =~= le_bytes(x / 256, m));
        assert(x == x % 256 + 256 * (x / 256)) by (nonlinear_arith);
    }
}

/// Reading a byte string and writing the value back in as many bytes gives the string.
pub proof fn lemma_le_bytes_of_value(b: Seq<u8>)
    ensures
        le_bytes(le_value(b), b.len()) == b,
    decreases b.len(),
{
    if b.len() > 0 {
        let rest = b.drop_first();
        lemma_le_bytes_of_value(rest);
        let v = le_value(b);
        let b0 = b[0] as nat;
        vstd::arithmetic::div_mod::lemma_fundamental_div_mod_converse(
            v as int,
            256,
            le_value(rest) as int,
            b0 as int,
        );
        assert(le_bytes(v, b.len()) =~= b);
    }
}

/// Two byte strings of one length that denote one value are equal.
pub proof fn lemma_le_value_injective(a: Seq<u8>, b: Seq<u8>)
    requires
        a.len() == b.len(),
        le_value(a) == le_value(b),
    ensures
        a == b,
{
    lemma_le_bytes_of_value(a);
    lemma_le_bytes_of_value(b);
}

/// Appends `x` to `buf` as `width` little-endian bytes.
pub fn push_le(buf: &mut Vec<u8>, x: u64, width: usize)
    requires
        width <= 8,
    ensures
        final(buf)@ == old(buf)@ + le_bytes(x as nat, width as nat),
{
    let mut v: u64 = x;
    let mut k: usize = 0;
    while k < width
        invariant
            k <= width,
            buf@ + le_bytes(v as nat, (width - k) as nat) == old(buf)@ + le_bytes(
                x as nat,
                width as nat,
            ),
        decreases width - k,
    {
        let ghost before = buf@;
        let ghost rest = le_bytes(v as nat, (width - k) as nat);
        buf.push((v % 256) as u8);
        proof {
            let tail = le_bytes((v / 256) as nat, (width - k - 1) as nat);
            assert(rest == seq![(v % 256) as u8] + tail);
            assert(buf@ + tail =~= before + rest);
        }
        v = v / 256;
        k = k + 1;
    }
    assert(buf@ + le_bytes(v as nat, 0) =~= buf@);
}

/// Reads `width` little-endian bytes of `b` from `start`.
pub fn read_le(b: &[u8], start: usize, width: usize) -> (r: u64)
    requires
        width <= 8,
        start + width <= b@.len(),
    ensures
        r as nat == le_value(b@.subrange(start as int, start + width)),
{
    let _n: usize = b.len();
    let end: usize = start + width;
    let mut v: u64 = 0;
    let mut k: usize = end;
    proof {
        assert(b@.subrange(end as int, end as int) =~= Seq::<u8>::empty());
    }
    while k > start
        invariant
            start <= k <= end,
            end == start + width,
            width <= 8,
            end <= b@.len(),
            v as nat == le_value(b@.subrange(k as int, end as int)),
        decreases k - start,
    {
        let ghost old_v = v;
        proof {
            lemma_le_value_bound(b@.subrange(k as int, end as int));
            lemma_pow256_monotone((end - k) as nat, 7);
            lemma_pow256_eight();
            reveal_with_fuel(pow256, 9);
            assert(b@.subrange(k - 1, end as int).drop_first() =~= b@.subrange(
                k as int,
                end as int,
            ));
        }
        v = v * 256 + b[k - 1] as u64;
        k = k - 1;
    }
    v
}

} // verus!
