//! Little-endian integers and hexadecimal digits over byte sequences.

use vstd::prelude::*;

verus! {

/// The `n` little-endian bytes of `v` (the high part of `v` that does not fit
/// is dropped).
pub open spec fn le_bytes(v: nat, n: nat) -> Seq<u8>
    decreases n,
{
    if n == 0 {
        Seq::empty()
    } else {
        seq![(v % 256) as u8] + le_bytes(v / 256, (n - 1) as nat)
    }
}

/// The number whose little-endian bytes are `s`.
pub open spec fn le_value(s: Seq<u8>) -> nat
    decreases s.len(),
{
    if s.len() == 0 {
        0
    } else {
        s[0] as nat + 256 * le_value(s.drop_first())
    }
}

/// `le_bytes(v, n)` has `n` bytes.
pub proof fn lemma_le_bytes_len(v: nat, n: nat)
    ensures
        le_bytes(v, n).len() == n,
    decreases n,
{
    if n > 0 {
        lemma_le_bytes_len(v / 256, (n - 1) as nat);
    }
}

/// Reading back the `n` little-endian bytes of a number below `256^n` gives
/// that number.
pub proof fn lemma_le_round_trip(v: nat, n: nat)
    requires
        v < pow256(n),
    ensures
        le_value(le_bytes(v, n)) == v,
    decreases n,
{
    if n > 0 {
        let rest = le_bytes(v / 256, (n - 1) as nat);
        assert(le_bytes(v, n).drop_first() =~= rest);
        assert(v / 256 < pow256((n - 1) as nat)) by (nonlinear_arith)
            requires
                v < pow256(n),
                pow256(n) == 256 * pow256((n - 1) as nat),
        ;
        lemma_le_round_trip(v / 256, (n - 1) as nat);
    }
}

/// `256^n`.
pub open spec fn pow256(n: nat) -> nat
    decreases n,
{
    if n == 0 {
        1
    } else {
        256 * pow256((n - 1) as nat)
    }
}

/// Appends the `n` little-endian bytes of `v` to `out`.
pub fn push_le(out: &mut Vec<u8>, v: u64, n: usize)
    requires
        n <= 8,
    ensures
        final(out)@ == old(out)@ + le_bytes(v as nat, n as nat),
{
    let mut x: u64 = v;
    let mut j: usize = 0;
    while j < n
        invariant
            j <= n,
            out@ + le_bytes(x as nat, (n - j) as nat) == old(out)@ + le_bytes(v as nat, n as nat),
        decreases n - j,
    {
        let ghost before = out@;
        assert(le_bytes(x as nat, (n - j) as nat) == seq![(x % 256) as u8] + le_bytes(
            (x / 256) as nat,
            (n - j - 1) as nat,
        ));
        out.push((x % 256) as u8);
        assert(out@ + le_bytes((x / 256) as nat, (n - j - 1) as nat) =~= before + le_bytes(
            x as nat,
            (n - j) as nat,
        ));
        x = x / 256;
        j = j + 1;
    }
    assert(le_bytes(x as nat, 0) =~= Seq::<u8>::empty());
    assert(out@ + Seq::<u8>::empty() =~= out@);
}

/// The number that the little-endian bytes `s` denote is below `256^|s|`.
pub proof fn lemma_le_value_bound(s: Seq<u8>)
    ensures
        le_value(s) < pow256(s.len()),
    decreases s.len(),
{
    if s.len() > 0 {
        lemma_le_value_bound(s.drop_first());
        let r = le_value(s.drop_first());
        let p = pow256((s.len() - 1) as nat);
        assert(s[0] as nat + 256 * r < 256 * p) by (nonlinear_arith)
            requires
                r < p,
                s[0] < 256,
        ;
    }
}

/// Reads the number stored in `b[start..start + n]`, little-endian.
pub fn read_le(b: &[u8], start: usize, n: usize) -> (r: u64)
    requires
        n <= 8,
        start + n <= b@.len(),
    ensures
        r as nat == le_value(b@.subrange(start as int, start + n)),
{
    let total: usize = b.len();
    let mut acc: u64 = 0;
    let mut j: usize = n;
    assert(b@.subrange(start + n, start + n) =~= Seq::<u8>::empty());
    while j > 0
        invariant
            j <= n <= 8,
            start + n <= b@.len(),
            total == b@.len(),
            acc as nat == le_value(b@.subrange(start + j, start + n)),
        decreases j,
    {
        let ghost tail = b@.subrange(start + j, start + n);
        let ghost s = b@.subrange(start + j - 1, start + n);
        assert(s.drop_first() =~= tail);
        proof {
            lemma_le_value_bound(tail);
            lemma_pow256_mono((n - j) as nat, 7);
        }
        assert(pow256(7) == 72057594037927936nat) by {
            reveal_with_fuel(pow256, 8);
        }
        let byte = b[start + j - 1];
        acc = byte as u64 + 256 * acc;
        j = j - 1;
    }
    acc
}

/// `256^a <= 256^b` when `a <= b`.
pub proof fn lemma_pow256_mono(a: nat, b: nat)
    requires
        a <= b,
    ensures
        pow256(a) <= pow256(b),
    decreases b,
{
    if a < b {
        lemma_pow256_mono(a, (b - 1) as nat);
    }
}

/// Whether `c` is an ASCII hexadecimal digit, of either case.
pub open spec fn is_hex_digit(c: u8) -> bool {
    (48 <= c <= 57) || (97 <= c <= 102) || (65 <= c <= 70)
}

/// The value of the hexadecimal digit `c`.
pub open spec fn hex_digit_value(c: u8) -> nat {
    if 48 <= c <= 57 {
        (c - 48) as nat
    } else if 97 <= c <= 102 {
        (c - 87) as nat
    } else {
        (c - 55) as nat
    }
}

/// The bytes that the hexadecimal text `s` (two digits per byte, high digit
/// first) denotes.
pub open spec fn hex_decoded(s: Seq<u8>) -> Seq<u8> {
    Seq::new(
        s.len() / 2,
        |i: int| (16 * hex_digit_value(s[2 * i]) + hex_digit_value(s[2 * i + 1])) as u8,
    )
}

/// Whether `s` is hexadecimal text: an even number of hexadecimal digits.
pub open spec fn is_hex_text(s: Seq<u8>) -> bool {
    s.len() % 2 == 0 && forall|i: int| 0 <= i < s.len() ==> is_hex_digit(#[trigger] s[i])
}

fn hex_digit(c: u8) -> (r: Option<u8>)
    ensures
        r is Some <==> is_hex_digit(c),
        r is Some ==> r->0 as nat == hex_digit_value(c) && r->0 < 16,
{
    if 48 <= c && c <= 57 {
        Some(c - 48)
    } else if 97 <= c && c <= 102 {
        Some(c - 87)
    } else if 65 <= c && c <= 70 {
        Some(c - 55)
    } else {
        None
    }
}

/// Decodes the hexadecimal text in `b[start..start + len]`.
pub fn decode_hex(b: &[u8], start: usize, len: usize) -> (r: Option<Vec<u8>>)
    requires
        start + len <= b@.len(),
    ensures
        r is Some <==> is_hex_text(b@.subrange(start as int, start + len)),
        r is Some ==> r->0@ == hex_decoded(b@.subrange(start as int, start + len)),
{
    let ghost s = b@.subrange(start as int, start + len);
    if len % 2 != 0 {
        return None;
    }
    let total: usize = b.len();
    let mut out: Vec<u8> = Vec::new();
    let mut i: usize = 0;
    while i < len / 2
        invariant
            len % 2 == 0,
            start + len <= b@.len(),
            total == b@.len(),
            s == b@.subrange(start as int, start + len),
            i <= len / 2,
            forall|j: int| 0 <= j < 2 * i ==> is_hex_digit(#[trigger] s[j]),
            out@ == hex_decoded(s).take(i as int),
        decreases len / 2 - i,
    {
        let hi = hex_digit(b[start + 2 * i]);
        let lo = hex_digit(b[start + 2 * i + 1]);
        match (hi, lo) {
            (Some(h), Some(l)) => {
                assert(s[2 * i as int] == b@[start + 2 * i]);
                assert(s[2 * i + 1] == b@[start + 2 * i + 1]);
                out.push(16 * h + l);
                i = i + 1;
                assert(out@ =~= hex_decoded(s).take(i as int));
            },
            _ => {
                assert(s[2 * i as int] == b@[start + 2 * i]);
                assert(s[2 * i + 1] == b@[start + 2 * i + 1]);
                return None;
            },
        }
    }
    assert(out@ =~= hex_decoded(s));
    Some(out)
}

/// A copy of `b[start..end]`.
pub fn copy_range(b: &[u8], start: usize, end: usize) -> (r: Vec<u8>)
    requires
        start <= end <= b@.len(),
    ensures
        r@ == b@.subrange(start as int, end as int),
{
    let mut out: Vec<u8> = Vec::new();
    let mut i: usize = start;
    while i < end
        invariant
            start <= i <= end <= b@.len(),
            out@ == b@.subrange(start as int, i as int),
        decreases end - i,
    {
        out.push(b[i]);
        i = i + 1;
        assert(out@ =~= b@.subrange(start as int, i as int));
    }
    out
}

/// Whether `a` and `b` hold the same bytes.
pub fn same_bytes(a: &[u8], b: &[u8]) -> (r: bool)
    ensures
        r == (a@ == b@),
{
    if a.len() != b.len() {
        return false;
    }
    let mut i: usize = 0;
    while i < a.len()
        invariant
            a@.len() == b@.len(),
            i <= a@.len(),
            forall|j: int| 0 <= j < i ==> a@[j] == b@[j],
        decreases a@.len() - i,
    {
        if a[i] != b[i] {
            return false;
        }
        i = i + 1;
    }
    assert(a@ =~= b@);
    true
}

} // verus!
