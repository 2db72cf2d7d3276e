//! Byte buffers of the `bytes` crate: what they hold, and the operations that
//! framing needs.

use bytes::{BufMut, Bytes, BytesMut};
use vstd::prelude::*;

verus! {

#[verifier::external_type_specification]
#[verifier::external_body]
pub struct ExBytes(Bytes);

#[verifier::external_type_specification]
#[verifier::external_body]
pub struct ExBytesMut(BytesMut);

/// The bytes that a shared buffer holds.
pub uninterp spec fn bytes_content(b: Bytes) -> Seq<u8>;

/// The bytes written to a growing buffer so far.
pub uninterp spec fn buf_content(b: BytesMut) -> Seq<u8>;

/// The number of bytes that a growing buffer was made to take.
pub uninterp spec fn buf_limit(b: BytesMut) -> nat;

// ── number encodings ────────────────────────────────────────────────────────

/// Byte `i` of `n`, counted from the least significant.
pub open spec fn byte_of(n: nat, i: nat) -> u8
    decreases i,
{
    if i == 0 {
        (n % 256) as u8
    } else {
        byte_of(n / 256, (i - 1) as nat)
    }
}

/// `n` in three bytes, most significant first.
pub open spec fn be24(n: nat) -> Seq<u8> {
    seq![byte_of(n, 2), byte_of(n, 1), byte_of(n, 0)]
}

/// `n` in four bytes, most significant first.
pub open spec fn be32(n: nat) -> Seq<u8> {
    seq![byte_of(n, 3), byte_of(n, 2), byte_of(n, 1), byte_of(n, 0)]
}

/// `n` in eight bytes, least significant first.
pub open spec fn le64(n: nat) -> Seq<u8> {
    Seq::new(8, |i: int| byte_of(n, i as nat))
}

/// The number that `s` writes with its most significant byte first.
pub open spec fn from_be(s: Seq<u8>) -> nat
    decreases s.len(),
{
    if s.len() == 0 {
        0
    } else {
        from_be(s.drop_last()) * 256 + s.last() as nat
    }
}

/// The number that `s` writes with its least significant byte first.
pub open spec fn from_le(s: Seq<u8>) -> nat {
    from_be(s.reverse())
}

/// Three bytes hold every number below 2^24.
pub proof fn lemma_be24_reads_back(n: nat)
    ensures
        from_be(be24(n)) == n % 0x100_0000,
{
    reveal_with_fuel(from_be, 4);
    reveal_with_fuel(byte_of, 3);
    let s = be24(n);
    assert(s.drop_last() =~= seq![s[0], s[1]]);
    assert(s.drop_last().drop_last() =~= seq![s[0]]);
    assert(s.drop_last().drop_last().drop_last() =~= Seq::<u8>::empty());
}

/// Four bytes hold every number below 2^32.
pub proof fn lemma_be32_reads_back(n: nat)
    ensures
        from_be(be32(n)) == n % 0x1_0000_0000,
{
    reveal_with_fuel(from_be, 5);
    reveal_with_fuel(byte_of, 4);
    let s = be32(n);
    assert(s.drop_last() =~= seq![s[0], s[1], s[2]]);
    assert(s.drop_last().drop_last() =~= seq![s[0], s[1]]);
    assert(s.drop_last().drop_last().drop_last() =~= seq![s[0]]);
    assert(s.drop_last().drop_last().drop_last().drop_last() =~= Seq::<u8>::empty());
}

/// The first `k` bytes of a number, least significant first, read back as the
/// number modulo `256^k`.
proof fn lemma_low_bytes(n: nat, k: nat)
    ensures
        from_be(Seq::new(k, |i: int| byte_of(n, i as nat)).reverse()) == n
            % (vstd::arithmetic::power::pow(256, k) as nat),
        vstd::arithmetic::power::pow(256, k) > 0,
    decreases k,
{
    vstd::arithmetic::power::lemma_pow_positive(256, k);
    let s = Seq::new(k, |i: int| byte_of(n, i as nat)).reverse();
    if k == 0 {
        assert(s =~= Seq::<u8>::empty());
        vstd::arithmetic::power::lemma_pow0(256);
    } else {
        let rest = Seq::new((k - 1) as nat, |i: int| byte_of(n / 256, i as nat)).reverse();
        assert(s.drop_last() =~= rest);
        assert(s.last() == byte_of(n, 0));
        lemma_low_bytes(n / 256, (k - 1) as nat);
        let p = vstd::arithmetic::power::pow(256, (k - 1) as nat);
        reveal(vstd::arithmetic::power::pow);
        assert(vstd::arithmetic::power::pow(256, k) == 256 * p);
        vstd::arithmetic::div_mod::lemma_mod_breakdown(n as int, 256, p);
    }
}

/// Eight bytes hold every `u64`.
pub proof fn lemma_le64_reads_back(n: u64)
    ensures
        from_le(le64(n as nat)) == n,
{
    lemma_low_bytes(n as nat, 8);
    reveal_with_fuel(vstd::arithmetic::power::pow, 9);
    assert(vstd::arithmetic::power::pow(256, 8) == 0x1_0000_0000_0000_0000);
    vstd::arithmetic::div_mod::lemma_small_mod(n as nat, 0x1_0000_0000_0000_0000);
}

// ── growing buffers ─────────────────────────────────────────────────────────

/// `BytesMut::with_capacity`: an empty buffer with room for `limit` bytes. The
/// crate panics on more than `isize::MAX`.
#[verifier::external_body]
pub(crate) fn buf_with_capacity(limit: usize) -> (b: BytesMut)
    requires
        limit <= isize::MAX,
    ensures
        buf_content(b) == Seq::<u8>::empty(),
        buf_limit(b) == limit,
{
    BytesMut::with_capacity(limit)
}

/// `BufMut::put_u8` on a `BytesMut`: appends one byte. The contract asks for
/// room that was there from the start, so that the buffer never has to grow.
#[verifier::external_body]
pub(crate) fn put_u8(b: &mut BytesMut, n: u8)
    requires
        buf_content(*old(b)).len() + 1 <= buf_limit(*old(b)),
    ensures
        buf_content(*final(b)) == buf_content(*old(b)).push(n),
        buf_limit(*final(b)) == buf_limit(*old(b)),
{
    b.put_u8(n)
}

/// `BufMut::put_u32` on a `BytesMut`: appends four bytes, the most significant
/// first. Asks for room as `put_u8` does.
#[verifier::external_body]
pub(crate) fn put_u32(b: &mut BytesMut, n: u32)
    requires
        buf_content(*old(b)).len() + 4 <= buf_limit(*old(b)),
    ensures
        buf_content(*final(b)) == buf_content(*old(b)) + be32(n as nat),
        buf_limit(*final(b)) == buf_limit(*old(b)),
{
    b.put_u32(n)
}

/// `BufMut::put_u64_le` on a `BytesMut`: appends eight bytes, the least
/// significant first. Asks for room as `put_u8` does.
#[verifier::external_body]
pub(crate) fn put_u64_le(b: &mut BytesMut, n: u64)
    requires
        buf_content(*old(b)).len() + 8 <= buf_limit(*old(b)),
    ensures
        buf_content(*final(b)) == buf_content(*old(b)) + le64(n as nat),
        buf_limit(*final(b)) == buf_limit(*old(b)),
{
    b.put_u64_le(n)
}

/// `BufMut::put_slice` on a `BytesMut`: appends all bytes of `s` in order. Asks
/// for room as `put_u8` does.
#[verifier::external_body]
pub(crate) fn put_slice(b: &mut BytesMut, s: &[u8])
    requires
        buf_content(*old(b)).len() + s@.len() <= buf_limit(*old(b)),
    ensures
        buf_content(*final(b)) == buf_content(*old(b)) + s@,
        buf_limit(*final(b)) == buf_limit(*old(b)),
{
    b.put_slice(s)
}

/// `BytesMut::freeze`: the same bytes as a shared buffer.
#[verifier::external_body]
pub(crate) fn freeze(b: BytesMut) -> (r: Bytes)
    ensures
        bytes_content(r) == buf_content(b),
{
    b.freeze()
}

// ── shared buffers ──────────────────────────────────────────────────────────

/// `Bytes::deref`: the bytes of a shared buffer, in place.
#[verifier::external_body]
pub(crate) fn bytes_slice(b: &Bytes) -> (s: &[u8])
    ensures
        s@ == bytes_content(*b),
{
    &b[..]
}

/// `Bytes::copy_from_slice`: a shared buffer with a copy of the bytes.
pub assume_specification[ Bytes::copy_from_slice ](data: &[u8]) -> (r: Bytes)
    ensures
        bytes_content(r) == data@,
;

/// `Bytes::clone`: another handle on the same bytes.
pub assume_specification[ <Bytes as Clone>::clone ](b: &Bytes) -> (r: Bytes)
    ensures
        bytes_content(r) == bytes_content(*b),
;

} // verus!
