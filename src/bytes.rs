use vstd::prelude::*;

verus! {

/// Little-endian 16-bit value at `off`.
pub open spec fn u16_at(b: Seq<u8>, off: int) -> u16 {
    (b[off] as int + 256 * b[off + 1] as int) as u16
}

/// Little-endian 32-bit value at `off`.
pub open spec fn u32_at(b: Seq<u8>, off: int) -> u32 {
    (b[off] as int + 256 * b[off + 1] as int + 65536 * b[off + 2] as int + 16777216 * b[off
        + 3] as int) as u32
}

/// `n` bytes starting at `off` lie inside `b`.
pub open spec fn in_bounds(b: Seq<u8>, off: int, n: int) -> bool {
    0 <= off && off + n <= b.len()
}

/// Reads a little-endian `u16`, or `None` when it does not fit in the buffer.
pub fn read_u16(b: &[u8], off: usize) -> (r: Option<u16>)
    ensures
        r == (if in_bounds(b@, off as int, 2) {
            Some(u16_at(b@, off as int))
        } else {
            None::<u16>
        }),
{
    if off > b.len() || b.len() - off < 2 {
        return None;
    }
    Some((b[off] as u16) + (b[off + 1] as u16) * 256)
}

/// Reads a little-endian `u32`, or `None` when it does not fit in the buffer.
pub fn read_u32(b: &[u8], off: usize) -> (r: Option<u32>)
    ensures
        r == (if in_bounds(b@, off as int, 4) {
            Some(u32_at(b@, off as int))
        } else {
            None::<u32>
        }),
{
    if off > b.len() || b.len() - off < 4 {
        return None;
    }
    Some((b[off] as u32) + (b[off + 1] as u32) * 256 + (b[off + 2] as u32) * 65536 + (b[off
        + 3] as u32) * 16777216)
}

/// Reads a little-endian `u32` at an offset given as `u64`, or `None` when it
/// does not fit in the buffer.
pub fn read_u32_at(b: &[u8], off: u64) -> (r: Option<u32>)
    ensures
        r == (if in_bounds(b@, off as int, 4) {
            Some(u32_at(b@, off as int))
        } else {
            None::<u32>
        }),
{
    if off > b.len() as u64 {
        return None;
    }
    read_u32(b, off as usize)
}

/// Reads a little-endian `u16` at an offset given as `u64`, or `None` when it
/// does not fit in the buffer.
pub fn read_u16_at(b: &[u8], off: u64) -> (r: Option<u16>)
    ensures
        r == (if in_bounds(b@, off as int, 2) {
            Some(u16_at(b@, off as int))
        } else {
            None::<u16>
        }),
{
    if off > b.len() as u64 {
        return None;
    }
    read_u16(b, off as usize)
}

/// ASCII lower-case of one byte; other bytes are unchanged.
pub open spec fn lower(c: u8) -> u8 {
    if 65 <= c <= 90 {
        (c + 32) as u8
    } else {
        c
    }
}

/// Lower-cases an ASCII upper-case letter and leaves every other byte as it is.
pub fn ascii_lower(c: u8) -> (r: u8)
    ensures
        r == lower(c),
{
    if 65 <= c && c <= 90 {
        c + 32
    } else {
        c
    }
}

/// Position of the first zero byte at or after `i`, if any.
pub open spec fn first_zero(b: Seq<u8>, i: int) -> Option<int>
    decreases b.len() - i,
{
    if i < 0 || i >= b.len() {
        None
    } else if b[i] == 0 {
        Some(i)
    } else {
        first_zero(b, i + 1)
    }
}

/// The NUL-terminated byte string starting at `off`: the bytes before the first
/// zero byte, or `None` when no zero byte follows `off` inside `b`.
pub open spec fn c_string_at(b: Seq<u8>, off: int) -> Option<Seq<u8>> {
    match first_zero(b, off) {
        Some(j) => Some(b.subrange(off, j)),
        None => None,
    }
}

/// Copies the NUL-terminated byte string at `off`, without its terminator.
pub fn read_c_string(b: &[u8], off: usize) -> (r: Option<Vec<u8>>)
    ensures
        r matches Some(v) ==> c_string_at(b@, off as int) == Some(v@),
        r is None ==> c_string_at(b@, off as int) is None,
{
    if off >= b.len() {
        return None;
    }
    let mut out: Vec<u8> = Vec::new();
    let mut i: usize = off;
    while i < b.len()
        invariant
            off <= i <= b.len(),
            out@ == b@.subrange(off as int, i as int),
            first_zero(b@, off as int) == first_zero(b@, i as int),
        decreases b.len() - i,
    {
        if b[i] == 0 {
            return Some(out);
        }
        out.push(b[i]);
        i = i + 1;
        assert(out@ == b@.subrange(off as int, i as int));
    }
    None
}

/// Whether `b` is well-formed UTF-8, as the standard library decides it.
pub uninterp spec fn is_utf8(b: Seq<u8>) -> bool;

/// Relies on std::str::from_utf8: it succeeds exactly on well-formed UTF-8.
#[verifier::external_body]
pub(crate) fn utf8_valid(b: &[u8]) -> (r: bool)
    ensures
        r == is_utf8(b@),
{
    std::str::from_utf8(b).is_ok()
}

} // verus!
