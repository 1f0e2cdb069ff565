//! Numbers in little-endian bytes.

use vstd::prelude::*;

verus! {

/// The 16-bit sample that two bytes hold, the low one first.
pub open spec fn sample_of(lo: u8, hi: u8) -> int {
    let v = lo as int + 256 * hi as int;
    if v >= 0x8000 {
        v - 0x1_0000
    } else {
        v
    }
}

/// The 16-bit sample that two bytes hold.
pub fn sample_from_bytes(lo: u8, hi: u8) -> (r: i16)
    ensures
        r == sample_of(lo, hi),
{
    let v: i32 = lo as i32 + 256 * hi as i32;
    if v >= 0x8000 {
        (v - 0x1_0000) as i16
    } else {
        v as i16
    }
}

/// The two bytes of a 16-bit sample.
pub open spec fn sample_bytes(v: i16) -> Seq<u8> {
    let u = if v < 0 {
        v + 0x1_0000
    } else {
        v as int
    };
    seq![(u % 256) as u8, (u / 256) as u8]
}

/// Appends the two bytes of a 16-bit sample.
pub fn push_sample(out: &mut Vec<u8>, v: i16)
    ensures
        final(out)@ == old(out)@ + sample_bytes(v),
{
    let u: i32 = if v < 0 {
        v as i32 + 0x1_0000
    } else {
        v as i32
    };
    let ghost before = out@;
    out.push((u % 256) as u8);
    out.push((u / 256) as u8);
    assert(out@ =~= before + sample_bytes(v));
}

/// A sample is read back from its bytes.
pub proof fn sample_round_trip(v: i16)
    ensures
        sample_of(sample_bytes(v)[0], sample_bytes(v)[1]) == v,
{
}

/// The 32-bit number that four bytes hold, the lowest one first.
pub open spec fn u32_of(b: Seq<u8>, at: int) -> int {
    b[at] + 256 * b[at + 1] + 65536 * b[at + 2] + 16777216 * b[at + 3]
}

/// The 32-bit number at a place in a row of bytes.
pub fn u32_at(b: &[u8], at: usize) -> (r: u32)
    requires
        at + 4 <= b.len(),
    ensures
        r == u32_of(b@, at as int),
{
    b[at] as u32 + 256 * b[at + 1] as u32 + 65536 * b[at + 2] as u32 + 16777216 * b[at
        + 3] as u32
}

/// The four bytes of a 32-bit number.
pub open spec fn u32_bytes(v: u32) -> Seq<u8> {
    seq![
        (v % 256) as u8,
        ((v / 256) % 256) as u8,
        ((v / 65536) % 256) as u8,
        (v / 16777216) as u8,
    ]
}

/// Appends the four bytes of a 32-bit number.
pub fn push_u32(out: &mut Vec<u8>, v: u32)
    ensures
        final(out)@ == old(out)@ + u32_bytes(v),
{
    let ghost before = out@;
    out.push((v % 256) as u8);
    out.push(((v / 256) % 256) as u8);
    out.push(((v / 65536) % 256) as u8);
    out.push((v / 16777216) as u8);
    assert(out@ =~= before + u32_bytes(v));
}

/// A 32-bit number is read back from its bytes.
pub proof fn u32_round_trip(v: u32, before: Seq<u8>, after: Seq<u8>)
    ensures
        u32_of(before + u32_bytes(v) + after, before.len() as int) == v,
{
    let b = before + u32_bytes(v) + after;
    let n = before.len() as int;
    assert(b[n] == u32_bytes(v)[0]);
    assert(b[n + 1] == u32_bytes(v)[1]);
    assert(b[n + 2] == u32_bytes(v)[2]);
    assert(b[n + 3] == u32_bytes(v)[3]);
}

/// The 16-bit number that two bytes hold, the low one first.
pub open spec fn u16_of(b: Seq<u8>, at: int) -> int {
    b[at] + 256 * b[at + 1]
}

/// The 16-bit number at a place in a row of bytes.
pub fn u16_at(b: &[u8], at: usize) -> (r: u16)
    requires
        at + 2 <= b.len(),
    ensures
        r == u16_of(b@, at as int),
{
    b[at] as u16 + 256 * b[at + 1] as u16
}

/// The two bytes of a 16-bit number.
pub open spec fn u16_bytes(v: u16) -> Seq<u8> {
    seq![(v % 256) as u8, (v / 256) as u8]
}

/// Appends the two bytes of a 16-bit number.
pub fn push_u16(out: &mut Vec<u8>, v: u16)
    ensures
        final(out)@ == old(out)@ + u16_bytes(v),
{
    let ghost before = out@;
    out.push((v % 256) as u8);
    out.push((v / 256) as u8);
    assert(out@ =~= before + u16_bytes(v));
}

/// A 16-bit number is read back from its bytes.
pub proof fn u16_round_trip(v: u16, before: Seq<u8>, after: Seq<u8>)
    ensures
        u16_of(before + u16_bytes(v) + after, before.len() as int) == v,
{
    let b = before + u16_bytes(v) + after;
    let n = before.len() as int;
    assert(b[n] == u16_bytes(v)[0]);
    assert(b[n + 1] == u16_bytes(v)[1]);
}

/// The low byte of a number comes first: each byte counts 256 times as much as the one before
/// it.
pub proof fn low_bytes_come_first(b: Seq<u8>, at: int)
    requires
        0 <= at,
        at + 4 <= b.len(),
    ensures
        u16_of(b, at) == b[at] + 0x100 * b[at + 1],
        u32_of(b, at) == u16_of(b, at) + 0x1_0000 * u16_of(b, at + 2),
        b[at + 1] < 0x80 ==> sample_of(b[at], b[at + 1]) == u16_of(b, at),
        b[at + 1] >= 0x80 ==> sample_of(b[at], b[at + 1]) == u16_of(b, at) - 0x1_0000,
{
}

} // verus!
