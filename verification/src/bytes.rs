//! Little-endian numbers in byte sequences.
use byteorder::{LittleEndian, ReadBytesExt};
use vstd::prelude::*;

verus! {

/// The number whose base-256 digits are `s`, the least significant first.
pub open spec fn le(s: Seq<u8>) -> nat
    decreases s.len(),
{
    if s.len() == 0 {
        0
    } else {
        s[0] as nat + 256 * le(s.skip(1))
    }
}

/// The first `k` base-256 digits of `n`, the least significant first.
pub open spec fn le_bytes(n: nat, k: nat) -> Seq<u8>
    decreases k,
{
    if k == 0 {
        Seq::empty()
    } else {
        seq![(n % 256) as u8] + le_bytes(n / 256, (k - 1) as nat)
    }
}

/// The bytes of a `u32`.
pub open spec fn u32_bytes(n: u32) -> Seq<u8> {
    le_bytes(n as nat, 4)
}

/// The bytes of a sequence of `u32`s, four each.
pub open spec fn words_bytes(s: Seq<u32>) -> Seq<u8>
    decreases s.len(),
{
    if s.len() == 0 {
        Seq::empty()
    } else {
        words_bytes(s.drop_last()) + u32_bytes(s.last())
    }
}

/// The `u32` that four bytes hold.
pub open spec fn u32_at(data: Seq<u8>, pos: int) -> u32 {
    le(data.subrange(pos, pos + 4)) as u32
}

/// Writing a number in four bytes and reading those back gives the number.
pub proof fn u32_roundtrip(n: u32)
    ensures
        u32_bytes(n).len() == 4,
        le(u32_bytes(n)) == n,
{
    lemma_le_bytes(n as nat, 4);
    assert(pow256(4) == 0x1_0000_0000) by {
        reveal_with_fuel(pow256, 5);
    }
    lemma_le_roundtrip(n as nat, 4);
}

spec fn pow256(k: nat) -> nat
    decreases k,
{
    if k == 0 {
        1
    } else {
        256 * pow256((k - 1) as nat)
    }
}

proof fn lemma_le_bytes(n: nat, k: nat)
    ensures
        le_bytes(n, k).len() == k,
    decreases k,
{
    if k > 0 {
        lemma_le_bytes(n / 256, (k - 1) as nat);
    }
}

proof fn lemma_le_roundtrip(n: nat, k: nat)
    requires
        n < pow256(k),
    ensures
        le(le_bytes(n, k)) == n,
    decreases k,
{
    if k > 0 {
        let rest = le_bytes(n / 256, (k - 1) as nat);
        lemma_le_bytes(n / 256, (k - 1) as nat);
        lemma_le_roundtrip(n / 256, (k - 1) as nat);
        assert((seq![(n % 256) as u8] + rest).skip(1) =~= rest);
    }
}

/// The value of `s` is below 256 to the power of its length.
pub proof fn lemma_le_bound(s: Seq<u8>)
    ensures
        s.len() <= 1 ==> le(s) < 0x100,
        s.len() <= 2 ==> le(s) < 0x1_0000,
        s.len() <= 4 ==> le(s) < 0x1_0000_0000,
        s.len() <= 8 ==> le(s) < 0x1_0000_0000_0000_0000,
    decreases s.len(),
{
    lemma_le_pow(s);
    reveal_with_fuel(pow256, 9);
    if s.len() <= 8 {
        lemma_pow256_monotone(s.len(), 8);
    }
    if s.len() <= 4 {
        lemma_pow256_monotone(s.len(), 4);
    }
    if s.len() <= 2 {
        lemma_pow256_monotone(s.len(), 2);
    }
    if s.len() <= 1 {
        lemma_pow256_monotone(s.len(), 1);
    }
}

proof fn lemma_le_pow(s: Seq<u8>)
    ensures
        le(s) < pow256(s.len()),
    decreases s.len(),
{
    if s.len() > 0 {
        lemma_le_pow(s.skip(1));
    }
}

proof fn lemma_pow256_monotone(a: nat, b: nat)
    requires
        a <= b,
    ensures
        pow256(a) <= pow256(b),
    decreases b,
{
    if a < b {
        lemma_pow256_monotone(a, (b - 1) as nat);
    }
}

/// `ReadBytesExt::read_u16::<LittleEndian>` on a slice: the number that its first
/// two bytes hold, or an error where there are fewer.
#[verifier::external_body]
fn read_le_u16(b: &[u8]) -> (r: Option<u16>)
    ensures
        r is Some <==> b@.len() >= 2,
        r matches Some(v) ==> v == le(b@.take(2)),
{
    let mut rest = b;
    rest.read_u16::<LittleEndian>().ok()
}

/// `ReadBytesExt::read_u32::<LittleEndian>` on a slice: the number that its first
/// four bytes hold, or an error where there are fewer.
#[verifier::external_body]
fn read_le_u32(b: &[u8]) -> (r: Option<u32>)
    ensures
        r is Some <==> b@.len() >= 4,
        r matches Some(v) ==> v == le(b@.take(4)),
{
    let mut rest = b;
    rest.read_u32::<LittleEndian>().ok()
}

/// `ReadBytesExt::read_u64::<LittleEndian>` on a slice: the number that its first
/// eight bytes hold, or an error where there are fewer.
#[verifier::external_body]
fn read_le_u64(b: &[u8]) -> (r: Option<u64>)
    ensures
        r is Some <==> b@.len() >= 8,
        r matches Some(v) ==> v == le(b@.take(8)),
{
    let mut rest = b;
    rest.read_u64::<LittleEndian>().ok()
}

/// The number in `data[pos..pos + 2]`.
pub fn u16_le(data: &[u8], pos: usize) -> (r: u16)
    requires
        pos + 2 <= data@.len(),
    ensures
        r == le(data@.subrange(pos as int, pos + 2)),
{
    let n: usize = data.len();
    assert(pos + 2 <= n);
    let part = vstd::slice::slice_subrange(data, pos, pos + 2);
    assert(part@.take(2) =~= data@.subrange(pos as int, pos + 2));
    match read_le_u16(part) {
        Some(v) => v,
        None => 0,
    }
}

/// The number in `data[pos..pos + 4]`.
pub fn u32_le(data: &[u8], pos: usize) -> (r: u32)
    requires
        pos + 4 <= data@.len(),
    ensures
        r == le(data@.subrange(pos as int, pos + 4)),
        r == u32_at(data@, pos as int),
{
    let n: usize = data.len();
    assert(pos + 4 <= n);
    let part = vstd::slice::slice_subrange(data, pos, pos + 4);
    assert(part@.take(4) =~= data@.subrange(pos as int, pos + 4));
    match read_le_u32(part) {
        Some(v) => v,
        None => 0,
    }
}

/// The number in `data[pos..pos + 8]`.
pub fn u64_le(data: &[u8], pos: usize) -> (r: u64)
    requires
        pos + 8 <= data@.len(),
    ensures
        r == le(data@.subrange(pos as int, pos + 8)),
{
    let n: usize = data.len();
    assert(pos + 8 <= n);
    let part = vstd::slice::slice_subrange(data, pos, pos + 8);
    assert(part@.take(8) =~= data@.subrange(pos as int, pos + 8));
    match read_le_u64(part) {
        Some(v) => v,
        None => 0,
    }
}

/// Appends the bytes of `n`.
pub fn push_u32(out: &mut Vec<u8>, n: u32)
    ensures
        final(out)@ == old(out)@ + u32_bytes(n),
{
    let ghost start = out@;
    out.push((n % 256) as u8);
    out.push((n / 256 % 256) as u8);
    out.push((n / 65536 % 256) as u8);
    out.push((n / 16777216 % 256) as u8);
    proof {
        reveal_with_fuel(le_bytes, 5);
        let m = n as nat;
        assert(m / 256 / 256 == m / 65536);
        assert(m / 256 / 256 / 256 == m / 16777216);
        assert(out@ =~= start + u32_bytes(n));
    }
}

} // verus!
