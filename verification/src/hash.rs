//! Content hashes and the keys made of them.
use vstd::prelude::*;

use crate::text::{chars_of, text_of};

verus! {

/// The BLAKE3 hash of some bytes, in hexadecimal.
pub uninterp spec fn blake3_text(data: Seq<u8>) -> Seq<char>;

pub open spec fn is_hex(c: char) -> bool {
    ('0' <= c && c <= '9') || ('a' <= c && c <= 'f')
}

/// `blake3::hash`, and `blake3::Hash::to_hex` of its result. The contract names
/// the text and says that it is made of 64 hexadecimal digits in small letters.
#[verifier::external_body]
fn blake3_hex(data: &[u8]) -> (r: String)
    ensures
        r@ == blake3_text(data@),
        r@.len() == 64,
        forall|i: int| 0 <= i < 64 ==> is_hex(#[trigger] r@[i]),
{
    blake3::hash(data).to_hex().to_string()
}

/// The first `n` hexadecimal digits of the hash of `data`.
pub fn hash_prefix(data: &[u8], n: usize) -> (r: String)
    requires
        n <= 64,
    ensures
        r@ == blake3_text(data@).take(n as int),
        r@.len() == n,
        forall|i: int| 0 <= i < n ==> is_hex(#[trigger] r@[i]),
{
    let h = blake3_hex(data);
    let v = chars_of(h.as_str());
    let r = text_of(&v, 0, n);
    assert(r@ =~= h@.take(n as int));
    r
}

/// The `n` lowest bytes of `x`, the lowest first.
pub open spec fn le_bytes(x: nat, n: nat) -> Seq<u8>
    decreases n,
{
    if n == 0 {
        Seq::empty()
    } else {
        seq![(x % 256) as u8] + le_bytes(x / 256, (n - 1) as nat)
    }
}

/// Appends the eight bytes of `x`, the lowest first.
pub fn push_le(out: &mut Vec<u8>, x: u64)
    ensures
        final(out)@ == old(out)@ + le_bytes(x as nat, 8),
{
    let ghost before = out@;
    let mut rest: u64 = x;
    let mut k: usize = 8;
    assert(out@ + le_bytes(x as nat, 8) =~= before + le_bytes(x as nat, 8));
    while k > 0
        invariant
            k <= 8,
            out@ + le_bytes(rest as nat, k as nat) == before + le_bytes(x as nat, 8),
        decreases k,
    {
        proof {
            let tail = le_bytes((rest / 256) as nat, (k - 1) as nat);
            assert(out@ + (seq![(rest % 256) as u8] + tail) =~= out@.push((rest % 256) as u8)
                + tail);
        }
        out.push((rest % 256) as u8);
        rest = rest / 256;
        k = k - 1;
    }
    assert(out@ + le_bytes(rest as nat, 0) =~= out@);
}

/// A signed number as the unsigned one with the same 64 bits.
pub open spec fn twos(x: int) -> nat {
    if x < 0 {
        (x + 0x1_0000_0000_0000_0000) as nat
    } else {
        x as nat
    }
}

pub fn to_unsigned(x: i64) -> (r: u64)
    ensures
        r == twos(x as int),
{
    if x < 0 {
        u64::MAX - ((-(x + 1)) as u64)
    } else {
        x as u64
    }
}

/// What the fingerprint of a file is taken from: its size, its time of change and
/// the bytes it starts with.
pub open spec fn fingerprint_input(size: u64, mtime: i64, head: Seq<u8>) -> Seq<u8> {
    le_bytes(size as nat, 8) + le_bytes(twos(mtime as int), 8) + head
}

pub open spec fn fingerprint_text(size: u64, mtime: i64, head: Seq<u8>) -> Seq<char> {
    blake3_text(fingerprint_input(size, mtime, head)).take(32)
}

/// The fingerprint of a file: the hash of its size, its time of change and its
/// first bytes. A hash of all of a file would take hours on a library of RAW
/// files.
pub fn fingerprint(size: u64, mtime: i64, head: &[u8]) -> (r: String)
    ensures
        r@ == fingerprint_text(size, mtime, head@),
        r@.len() == 32,
{
    let mut input: Vec<u8> = Vec::new();
    push_le(&mut input, size);
    push_le(&mut input, to_unsigned(mtime));
    push_all(&mut input, head);
    assert(input@ =~= fingerprint_input(size, mtime, head@));
    hash_prefix(input.as_slice(), 32)
}

/// Appends the bytes of a slice.
pub fn push_all(out: &mut Vec<u8>, more: &[u8])
    ensures
        final(out)@ == old(out)@ + more@,
{
    let mut tail = vstd::slice::slice_to_vec(more);
    out.append(&mut tail);
}

proof fn lemma_le_bytes(x: nat, n: nat)
    ensures
        le_bytes(x, n).len() == n,
    decreases n,
{
    if n > 0 {
        lemma_le_bytes(x / 256, (n - 1) as nat);
    }
}

/// The low bytes of two numbers are equal only where the numbers agree modulo
/// that many bytes.
proof fn lemma_le_bytes_injective(x: nat, y: nat, n: nat, bound: nat)
    requires
        le_bytes(x, n) == le_bytes(y, n),
        x < bound,
        y < bound,
        bound <= vstd::arithmetic::power::pow(256, n),
    ensures
        x == y,
    decreases n,
{
    reveal(vstd::arithmetic::power::pow);
    if n > 0 {
        let s = le_bytes(x, n);
        let t = le_bytes(y, n);
        assert(s[0] == (x % 256) as u8 && t[0] == (y % 256) as u8);
        assert(s.skip(1) =~= le_bytes(x / 256, (n - 1) as nat));
        assert(t.skip(1) =~= le_bytes(y / 256, (n - 1) as nat));
        let p = vstd::arithmetic::power::pow(256, (n - 1) as nat);
        assert(vstd::arithmetic::power::pow(256, n) == 256 * p);
        assert(x / 256 < p && y / 256 < p) by (nonlinear_arith)
            requires
                x < 256 * p,
                y < 256 * p,
        ;
        lemma_le_bytes_injective(x / 256, y / 256, (n - 1) as nat, p as nat);
    }
}

/// Files that differ in size, in time of change or in their first bytes are
/// fingerprinted from different data.
pub proof fn law_fingerprint_sees_every_part(
    size1: u64,
    mtime1: i64,
    head1: Seq<u8>,
    size2: u64,
    mtime2: i64,
    head2: Seq<u8>,
)
    requires
        fingerprint_input(size1, mtime1, head1) == fingerprint_input(size2, mtime2, head2),
    ensures
        size1 == size2,
        mtime1 == mtime2,
        head1 == head2,
{
    let a = fingerprint_input(size1, mtime1, head1);
    let b = fingerprint_input(size2, mtime2, head2);
    lemma_le_bytes(size1 as nat, 8);
    lemma_le_bytes(size2 as nat, 8);
    lemma_le_bytes(twos(mtime1 as int), 8);
    lemma_le_bytes(twos(mtime2 as int), 8);
    assert(a.take(8) =~= le_bytes(size1 as nat, 8));
    assert(b.take(8) =~= le_bytes(size2 as nat, 8));
    assert(a.subrange(8, 16) =~= le_bytes(twos(mtime1 as int), 8));
    assert(b.subrange(8, 16) =~= le_bytes(twos(mtime2 as int), 8));
    assert(a.skip(16) =~= head1);
    assert(b.skip(16) =~= head2);
    assert(vstd::arithmetic::power::pow(256, 8) == 0x1_0000_0000_0000_0000) by {
        reveal_with_fuel(vstd::arithmetic::power::pow, 9);
    }
    lemma_le_bytes_injective(size1 as nat, size2 as nat, 8, 0x1_0000_0000_0000_0000);
    lemma_le_bytes_injective(
        twos(mtime1 as int),
        twos(mtime2 as int),
        8,
        0x1_0000_0000_0000_0000,
    );
}

} // verus!
