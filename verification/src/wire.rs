//! Big-endian integers as they appear in frames, packages and payloads.

use byteorder::ByteOrder;
use vstd::prelude::*;
use vstd::slice::slice_subrange;

verus! {

/// The number that a big-endian byte string denotes.
pub open spec fn be_value(s: Seq<u8>) -> nat
    decreases s.len(),
{
    if s.len() == 0 {
        0
    } else {
        be_value(s.drop_last()) * 256 + s.last() as nat
    }
}

/// The big-endian encoding of the low `n` bytes of `v`.
pub open spec fn be_bytes(v: nat, n: nat) -> Seq<u8>
    decreases n,
{
    if n == 0 {
        Seq::empty()
    } else {
        be_bytes(v / 256, (n - 1) as nat).push((v % 256) as u8)
    }
}

/// 256 to the power `n`: the number of byte strings of length `n`.
pub open spec fn byte_range(n: nat) -> nat
    decreases n,
{
    if n == 0 {
        1
    } else {
        256 * byte_range((n - 1) as nat)
    }
}

/// An encoding of `n` bytes has `n` bytes.
pub proof fn lemma_be_bytes_len(v: nat, n: nat)
    ensures
        be_bytes(v, n).len() == n,
    decreases n,
{
    if n > 0 {
        lemma_be_bytes_len(v / 256, (n - 1) as nat);
    }
}

/// Decoding what was encoded gives the number back, when it fits in `n` bytes.
pub proof fn lemma_be_value_of_bytes(v: nat, n: nat)
    requires
        v < byte_range(n),
    ensures
        be_value(be_bytes(v, n)) == v,
    decreases n,
{
    if n > 0 {
        let rest = be_bytes(v / 256, (n - 1) as nat);
        lemma_be_value_of_bytes(v / 256, (n - 1) as nat);
        assert(be_bytes(v, n).drop_last() =~= rest);
    }
}

/// Eight bytes hold every `u64`, four bytes every `u32`.
pub proof fn lemma_byte_range_words()
    ensures
        byte_range(4) == 0x1_0000_0000,
        byte_range(8) == 0x1_0000_0000_0000_0000,
{
    reveal_with_fuel(byte_range, 9);
}

/// The low `n` bytes of `v`, most significant first.
fn to_be(v: u64, n: usize) -> (out: Vec<u8>)
    ensures
        out@ == be_bytes(v as nat, n as nat),
{
    let mut out: Vec<u8> = Vec::new();
    let mut rest: u64 = v;
    let mut done: usize = 0;
    while done < n
        invariant
            done <= n,
            out@.len() == done,
            be_bytes(v as nat, n as nat) == be_bytes(rest as nat, (n - done) as nat) + out@,
        decreases n - done,
    {
        let low: u8 = (rest % 256) as u8;
        proof {
            let k = (n - done) as nat;
            assert(be_bytes(rest as nat, k) == be_bytes(rest as nat / 256, (k - 1) as nat).push(low));
            assert(be_bytes(rest as nat / 256, (k - 1) as nat).push(low) + out@
                =~= be_bytes(rest as nat / 256, (k - 1) as nat) + out@.insert(0, low));
        }
        out.insert(0, low);
        rest = rest / 256;
        done = done + 1;
    }
    proof {
        assert(be_bytes(rest as nat, 0) + out@ =~= out@);
    }
    out
}

/// The eight bytes of `v`, most significant first.
pub fn u64_to_be(v: u64) -> (out: Vec<u8>)
    ensures
        out@ == be_bytes(v as nat, 8),
{
    to_be(v, 8)
}

/// The four bytes of `v`, most significant first.
pub fn u32_to_be(v: u32) -> (out: Vec<u8>)
    ensures
        out@ == be_bytes(v as nat, 4),
{
    to_be(v as u64, 4)
}

/// Calls `byteorder::BigEndian::read_u64`, which reads the first eight bytes
/// of the slice as one big-endian number and panics on a shorter slice.
#[verifier::external_body]
fn read_be_u64(buf: &[u8]) -> (v: u64)
    requires
        buf@.len() >= 8,
    ensures
        v as nat == be_value(buf@.subrange(0, 8)),
{
    byteorder::BigEndian::read_u64(buf)
}

/// Calls `byteorder::BigEndian::read_u32`, which reads the first four bytes
/// of the slice as one big-endian number and panics on a shorter slice.
#[verifier::external_body]
fn read_be_u32(buf: &[u8]) -> (v: u32)
    requires
        buf@.len() >= 4,
    ensures
        v as nat == be_value(buf@.subrange(0, 4)),
{
    byteorder::BigEndian::read_u32(buf)
}

/// The `u64` that the bytes from `at` on start with, if eight bytes are there.
pub fn u64_from_be(bytes: &[u8], at: usize) -> (r: Option<u64>)
    ensures
        r is Some <==> at + 8 <= bytes@.len(),
        r matches Some(v) ==> v as nat == be_value(bytes@.subrange(at as int, at + 8)),
{
    if at > bytes.len() || bytes.len() - at < 8 {
        return None;
    }
    let tail = slice_subrange(bytes, at, bytes.len());
    let v = read_be_u64(tail);
    proof {
        assert(tail@.subrange(0, 8) =~= bytes@.subrange(at as int, at + 8));
    }
    Some(v)
}

/// The `u32` that the bytes from `at` on start with, if four bytes are there.
pub fn u32_from_be(bytes: &[u8], at: usize) -> (r: Option<u32>)
    ensures
        r is Some <==> at + 4 <= bytes@.len(),
        r matches Some(v) ==> v as nat == be_value(bytes@.subrange(at as int, at + 4)),
{
    if at > bytes.len() || bytes.len() - at < 4 {
        return None;
    }
    let tail = slice_subrange(bytes, at, bytes.len());
    let v = read_be_u32(tail);
    proof {
        assert(tail@.subrange(0, 4) =~= bytes@.subrange(at as int, at + 4));
    }
    Some(v)
}

} // verus!
