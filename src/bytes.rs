//! Little-endian integer reads at explicit positions of a byte buffer.
use vstd::prelude::*;

verus! {

/// The unsigned 16-bit little-endian value of the two bytes at `p`.
pub open spec fn le_u16(s: Seq<u8>, p: int) -> u16 {
    (s[p] as int + 256 * s[p + 1] as int) as u16
}

/// The unsigned 32-bit little-endian value of the four bytes at `p`.
pub open spec fn le_u32(s: Seq<u8>, p: int) -> u32 {
    (s[p] as int + 256 * s[p + 1] as int + 65536 * s[p + 2] as int + 16777216
        * s[p + 3] as int) as u32
}

/// The unsigned 64-bit little-endian value of the eight bytes at `p`.
pub open spec fn le_u64(s: Seq<u8>, p: int) -> u64 {
    (le_u32(s, p) as int + 4294967296 * le_u32(s, p + 4) as int) as u64
}

pub open spec fn le_i16(s: Seq<u8>, p: int) -> i16 {
    le_u16(s, p) as i16
}

pub open spec fn le_i32(s: Seq<u8>, p: int) -> i32 {
    le_u32(s, p) as i32
}

pub open spec fn le_i64(s: Seq<u8>, p: int) -> i64 {
    le_u64(s, p) as i64
}

/// The byte at offset `k` of the record at `p`.
pub fn get_u8(b: &[u8], p: usize, k: usize) -> (r: u8)
    requires
        p + k < b@.len(),
    ensures
        r == b@[p + k],
{
    let q = field_pos(b, p, k, 1);
    b[q]
}

/// The position of the field at offset `k` of the record at `p`, which lies
/// inside `b` with its `w` bytes.
fn field_pos(b: &[u8], p: usize, k: usize, w: usize) -> (q: usize)
    requires
        p + k + w <= b@.len(),
    ensures
        q == p + k,
{
    let len: usize = b.len();
    assert(p + k + w <= len);
    p + k
}

pub fn get_u16(b: &[u8], p: usize, k: usize) -> (r: u16)
    requires
        p + k + 2 <= b@.len(),
    ensures
        r == le_u16(b@, p + k),
{
    let q = field_pos(b, p, k, 2);
    b[q] as u16 + 256 * (b[q + 1] as u16)
}

pub fn get_u32(b: &[u8], p: usize, k: usize) -> (r: u32)
    requires
        p + k + 4 <= b@.len(),
    ensures
        r == le_u32(b@, p + k),
{
    let q = field_pos(b, p, k, 4);
    b[q] as u32 + 256 * (b[q + 1] as u32) + 65536 * (b[q + 2] as u32) + 16777216 * (b[q
        + 3] as u32)
}

pub fn get_u64(b: &[u8], p: usize, k: usize) -> (r: u64)
    requires
        p + k + 8 <= b@.len(),
    ensures
        r == le_u64(b@, p + k),
{
    let q = field_pos(b, p, k, 8);
    let lo = get_u32(b, q, 0);
    let hi = get_u32(b, q, 4);
    lo as u64 + 4294967296 * (hi as u64)
}

pub fn get_i16(b: &[u8], p: usize, k: usize) -> (r: i16)
    requires
        p + k + 2 <= b@.len(),
    ensures
        r == le_i16(b@, p + k),
{
    get_u16(b, p, k) as i16
}

pub fn get_i32(b: &[u8], p: usize, k: usize) -> (r: i32)
    requires
        p + k + 4 <= b@.len(),
    ensures
        r == le_i32(b@, p + k),
{
    get_u32(b, p, k) as i32
}

pub fn get_i64(b: &[u8], p: usize, k: usize) -> (r: i64)
    requires
        p + k + 8 <= b@.len(),
    ensures
        r == le_i64(b@, p + k),
{
    get_u64(b, p, k) as i64
}

} // verus!
