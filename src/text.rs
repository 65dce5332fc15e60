//! Text fields of the binary format: NUL-terminated runs, fixed-width
//! buffers, and decimal rendering of integers.
use crate::error::MetalibError;
use encoding::Encoding;
use vstd::prelude::*;

verus! {

/// A NUL-terminated run longer than this is refused.
pub const MAX_STRING_SIZE: usize = 4 * 1024 * 1024;

/// What GBK decoding (with replacement of malformed sequences) makes of `b`.
pub uninterp spec fn gbk_text(b: Seq<u8>) -> Seq<char>;

/// What lossy UTF-8 decoding makes of `b`.
pub uninterp spec fn utf8_lossy_text(b: Seq<u8>) -> Seq<char>;

/// Relies on `encoding::all::GBK.decode` with `DecoderTrap::Replace`: the
/// replace trap writes U+FFFD for a malformed sequence and never stops the
/// decode, so the call always succeeds and its text depends on `b` alone.
#[verifier::external_body]
fn decode_gbk(b: &[u8]) -> (r: String)
    ensures
        r@ == gbk_text(b@),
{
    encoding::all::GBK.decode(b, encoding::DecoderTrap::Replace).unwrap_or_default()
}

/// Relies on `String::from_utf8_lossy`: its text depends on `b` alone.
#[verifier::external_body]
fn decode_utf8_lossy(b: &[u8]) -> (r: String)
    ensures
        r@ == utf8_lossy_text(b@),
{
    String::from_utf8_lossy(b).into_owned()
}

/// The index of the first zero byte of `s` at or after `i`, or `s.len()`.
pub open spec fn first_zero(s: Seq<u8>, i: int) -> int
    decreases s.len() - i,
{
    if i < 0 || i >= s.len() {
        s.len() as int
    } else if s[i] == 0 {
        i
    } else {
        first_zero(s, i + 1)
    }
}

/// A NUL-terminated run starts at `off`, ends inside `s`, and is shorter
/// than `MAX_STRING_SIZE`.
pub open spec fn cstr_ok(s: Seq<u8>, off: int) -> bool {
    &&& 0 <= off
    &&& first_zero(s, off) < s.len()
    &&& first_zero(s, off) - off < MAX_STRING_SIZE
}

/// The bytes of the NUL-terminated run at `off`, without the terminator.
pub open spec fn cstr_bytes(s: Seq<u8>, off: int) -> Seq<u8> {
    s.subrange(off, first_zero(s, off))
}

/// An offset-indirected text field: -1 stands for the empty text.
pub open spec fn text_ref_ok(s: Seq<u8>, off: i32) -> bool {
    off == -1 || cstr_ok(s, off as int)
}

pub open spec fn text_ref(s: Seq<u8>, off: i32) -> Seq<char> {
    if off == -1 {
        Seq::empty()
    } else {
        gbk_text(cstr_bytes(s, off as int))
    }
}

/// The text of a fixed-width buffer of `n` bytes at `p`, cut at its first zero byte.
pub open spec fn fixed_text(s: Seq<u8>, p: int, n: int) -> Seq<char> {
    let z = first_zero(s, p);
    utf8_lossy_text(s.subrange(p, if z < p + n { z } else { p + n }))
}

proof fn lemma_first_zero_bounds(s: Seq<u8>, i: int)
    requires
        0 <= i <= s.len(),
    ensures
        i <= first_zero(s, i) <= s.len(),
        first_zero(s, i) < s.len() ==> s[first_zero(s, i)] == 0,
        forall|k: int| i <= k < first_zero(s, i) ==> s[k] != 0,
    decreases s.len() - i,
{
    if i < s.len() && s[i] != 0 {
        lemma_first_zero_bounds(s, i + 1);
    }
}

/// The end of the NUL-terminated run at `off`, if `cstr_ok` holds.
fn find_terminator(b: &[u8], off: usize) -> (r: Option<usize>)
    ensures
        r is Some <==> cstr_ok(b@, off as int),
        r matches Some(z) ==> z == first_zero(b@, off as int) && off <= z < b@.len(),
{
    let len = b.len();
    if off >= len {
        return None;
    }
    proof {
        lemma_first_zero_bounds(b@, off as int);
    }
    let mut i: usize = off;
    while i < len
        invariant
            off <= i <= len,
            len == b@.len(),
            off < len,
            first_zero(b@, off as int) == first_zero(b@, i as int),
            i - off < MAX_STRING_SIZE,
        decreases len - i,
    {
        if b[i] == 0 {
            return Some(i);
        }
        if i - off == MAX_STRING_SIZE - 1 {
            proof {
                lemma_first_zero_bounds(b@, i as int + 1);
            }
            return None;
        }
        i = i + 1;
    }
    None
}

/// Decodes the NUL-terminated GBK text at `off`.
fn read_gbk_cstr(b: &[u8], off: usize) -> (r: Result<String, MetalibError>)
    ensures
        r is Ok <==> cstr_ok(b@, off as int),
        r matches Ok(t) ==> t@ == gbk_text(cstr_bytes(b@, off as int)),
        r matches Err(e) ==> e == (MetalibError::BufferTruncated { position: off as u64 }),
{
    match find_terminator(b, off) {
        Some(z) => Ok(decode_gbk(&b[off..z])),
        None => Err(MetalibError::BufferTruncated { position: off as u64 }),
    }
}

/// Decodes the NUL-terminated UTF-8 text at `off`.
pub fn read_utf8_cstr(b: &[u8], off: usize) -> (r: Result<String, MetalibError>)
    ensures
        r is Ok <==> cstr_ok(b@, off as int),
        r matches Ok(t) ==> t@ == utf8_lossy_text(cstr_bytes(b@, off as int)),
        r matches Err(e) ==> e == (MetalibError::BufferTruncated { position: off as u64 }),
{
    match find_terminator(b, off) {
        Some(z) => Ok(decode_utf8_lossy(&b[off..z])),
        None => Err(MetalibError::BufferTruncated { position: off as u64 }),
    }
}

/// Decodes an offset-indirected text field whose offset is `off`.
pub fn read_text_ref(b: &[u8], off: i32) -> (r: Result<String, MetalibError>)
    ensures
        r is Ok <==> text_ref_ok(b@, off),
        r matches Ok(t) ==> t@ == text_ref(b@, off),
        r matches Err(e) ==> e == (MetalibError::BufferTruncated { position: off as u64 }),
{
    if off == -1 {
        Ok(String::new())
    } else if off < 0 {
        Err(MetalibError::BufferTruncated { position: off as u64 })
    } else {
        read_gbk_cstr(b, off as usize)
    }
}

/// Decodes the fixed-width text buffer of `n` bytes at `p`.
pub fn read_fixed_text(b: &[u8], p: usize, n: usize) -> (r: String)
    requires
        p + n <= b@.len(),
    ensures
        r@ == fixed_text(b@, p as int, n as int),
{
    proof {
        lemma_first_zero_bounds(b@, p as int);
    }
    let len: usize = b.len();
    assert(p + n <= len);
    let end: usize = p + n;
    let mut i: usize = p;
    while i < end && b[i] != 0
        invariant
            p <= i <= end,
            end == p + n,
            p + n <= b@.len(),
            first_zero(b@, p as int) == first_zero(b@, i as int),
        decreases p + n - i,
    {
        i = i + 1;
    }
    proof {
        lemma_first_zero_bounds(b@, i as int);
    }
    decode_utf8_lossy(&b[p..i])
}

} // verus!
