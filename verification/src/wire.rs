//! The pieces of the binary format.
//!
//! Integers are written in little-endian order at their full width. A byte
//! string of varying length is written as a *chunk*: its length as a `u64`,
//! then its bytes. For each piece there is a function that appends it to a
//! buffer, a function that reads it at a position, and a specification of what
//! reading means, together with the two facts that make reading the inverse of
//! writing.

use vstd::prelude::*;
use vstd::bytes::*;
use vstd::slice::*;

verus! {

/// The four bytes of a `u32`.
pub open spec fn u32_bytes(x: u32) -> Seq<u8> {
    spec_u32_to_le_bytes(x)
}

/// The eight bytes of a `u64`.
pub open spec fn u64_bytes(x: u64) -> Seq<u8> {
    spec_u64_to_le_bytes(x)
}

/// The eight bytes of an `i64`, in two's complement.
pub open spec fn i64_bytes(x: i64) -> Seq<u8> {
    spec_u64_to_le_bytes(x as u64)
}

/// A byte string preceded by its length.
pub open spec fn chunk(bytes: Seq<u8>) -> Seq<u8> {
    u64_bytes(bytes.len() as u64) + bytes
}

/// Reading a `u32` from the front of `s`: the number and what follows it.
pub open spec fn parse_u32(s: Seq<u8>) -> Option<(u32, Seq<u8>)> {
    if s.len() >= 4 {
        Some((spec_u32_from_le_bytes(s.subrange(0, 4)), s.skip(4)))
    } else {
        None
    }
}

/// Reading a `u64` from the front of `s`.
pub open spec fn parse_u64(s: Seq<u8>) -> Option<(u64, Seq<u8>)> {
    if s.len() >= 8 {
        Some((spec_u64_from_le_bytes(s.subrange(0, 8)), s.skip(8)))
    } else {
        None
    }
}

/// Reading an `i64` from the front of `s`.
pub open spec fn parse_i64(s: Seq<u8>) -> Option<(i64, Seq<u8>)> {
    match parse_u64(s) {
        Some((x, rest)) => Some((x as i64, rest)),
        None => None,
    }
}

/// Reading `n` bytes from the front of `s`.
pub open spec fn parse_fixed(s: Seq<u8>, n: nat) -> Option<(Seq<u8>, Seq<u8>)> {
    if s.len() >= n {
        Some((s.take(n as int), s.skip(n as int)))
    } else {
        None
    }
}

/// Reading a chunk from the front of `s`.
pub open spec fn parse_chunk(s: Seq<u8>) -> Option<(Seq<u8>, Seq<u8>)> {
    match parse_u64(s) {
        Some((n, rest)) => parse_fixed(rest, n as nat),
        None => None,
    }
}

/// A `u32` that was written is read back.
pub proof fn lemma_parse_u32(x: u32, tail: Seq<u8>)
    ensures
        u32_bytes(x).len() == 4,
        parse_u32(u32_bytes(x) + tail) == Some((x, tail)),
{
    lemma_auto_spec_u32_to_from_le_bytes();
    let s = u32_bytes(x) + tail;
    assert(s.subrange(0, 4) =~= u32_bytes(x));
    assert(s.skip(4) =~= tail);
}

/// What was read as a `u32` had been written as that number.
pub proof fn lemma_unparse_u32(s: Seq<u8>)
    requires
        parse_u32(s) is Some,
    ensures
        s == u32_bytes(parse_u32(s).unwrap().0) + parse_u32(s).unwrap().1,
{
    lemma_auto_spec_u32_to_from_le_bytes();
    let head = s.subrange(0, 4);
    assert(spec_u32_to_le_bytes(spec_u32_from_le_bytes(head)) == head);
    assert(s =~= head + s.skip(4));
}

/// A `u64` that was written is read back.
pub proof fn lemma_parse_u64(x: u64, tail: Seq<u8>)
    ensures
        u64_bytes(x).len() == 8,
        parse_u64(u64_bytes(x) + tail) == Some((x, tail)),
{
    lemma_auto_spec_u64_to_from_le_bytes();
    let s = u64_bytes(x) + tail;
    assert(s.subrange(0, 8) =~= u64_bytes(x));
    assert(s.skip(8) =~= tail);
}

/// What was read as a `u64` had been written as that number.
pub proof fn lemma_unparse_u64(s: Seq<u8>)
    requires
        parse_u64(s) is Some,
    ensures
        s == u64_bytes(parse_u64(s).unwrap().0) + parse_u64(s).unwrap().1,
{
    lemma_auto_spec_u64_to_from_le_bytes();
    let head = s.subrange(0, 8);
    assert(spec_u64_to_le_bytes(spec_u64_from_le_bytes(head)) == head);
    assert(s =~= head + s.skip(8));
}

/// Turning an `i64` into a `u64` and back loses nothing, in either direction.
pub proof fn lemma_i64_u64(x: i64, y: u64)
    ensures
        (x as u64) as i64 == x,
        (y as i64) as u64 == y,
{
    assert((x as u64) as i64 == x) by (bit_vector);
    assert((y as i64) as u64 == y) by (bit_vector);
}

/// An `i64` that was written is read back.
pub proof fn lemma_parse_i64(x: i64, tail: Seq<u8>)
    ensures
        i64_bytes(x).len() == 8,
        parse_i64(i64_bytes(x) + tail) == Some((x, tail)),
{
    lemma_parse_u64(x as u64, tail);
    lemma_i64_u64(x, 0);
}

/// What was read as an `i64` had been written as that number.
pub proof fn lemma_unparse_i64(s: Seq<u8>)
    requires
        parse_i64(s) is Some,
    ensures
        s == i64_bytes(parse_i64(s).unwrap().0) + parse_i64(s).unwrap().1,
{
    lemma_unparse_u64(s);
    lemma_i64_u64(0, parse_u64(s).unwrap().0);
}

/// Bytes that were written are read back.
pub proof fn lemma_parse_fixed(bytes: Seq<u8>, tail: Seq<u8>)
    ensures
        parse_fixed(bytes + tail, bytes.len()) == Some((bytes, tail)),
{
    let s = bytes + tail;
    assert(s.take(bytes.len() as int) =~= bytes);
    assert(s.skip(bytes.len() as int) =~= tail);
}

/// What was read as `n` bytes had been written as those bytes.
pub proof fn lemma_unparse_fixed(s: Seq<u8>, n: nat)
    requires
        parse_fixed(s, n) is Some,
    ensures
        parse_fixed(s, n).unwrap().0.len() == n,
        s == parse_fixed(s, n).unwrap().0 + parse_fixed(s, n).unwrap().1,
{
    assert(s =~= s.take(n as int) + s.skip(n as int));
}

/// A chunk that was written is read back, if its length fits the prefix.
pub proof fn lemma_parse_chunk(bytes: Seq<u8>, tail: Seq<u8>)
    requires
        bytes.len() <= u64::MAX,
    ensures
        parse_chunk(chunk(bytes) + tail) == Some((bytes, tail)),
{
    lemma_parse_u64(bytes.len() as u64, bytes + tail);
    assert(chunk(bytes) + tail =~= u64_bytes(bytes.len() as u64) + (bytes + tail));
    lemma_parse_fixed(bytes, tail);
}

/// What was read as a chunk had been written as that chunk.
pub proof fn lemma_unparse_chunk(s: Seq<u8>)
    requires
        parse_chunk(s) is Some,
    ensures
        parse_chunk(s).unwrap().0.len() <= u64::MAX,
        s == chunk(parse_chunk(s).unwrap().0) + parse_chunk(s).unwrap().1,
{
    lemma_unparse_u64(s);
    let (n, rest) = parse_u64(s).unwrap();
    lemma_unparse_fixed(rest, n as nat);
    let (bytes, tail) = parse_fixed(rest, n as nat).unwrap();
    assert(s =~= chunk(bytes) + tail);
}

/// Appends the bytes of `x`.
pub fn put_u32(out: &mut Vec<u8>, x: u32)
    ensures
        final(out)@ == old(out)@ + u32_bytes(x),
{
    let mut bytes = u32_to_le_bytes(x);
    out.append(&mut bytes);
}

/// Appends the bytes of `x`.
pub fn put_u64(out: &mut Vec<u8>, x: u64)
    ensures
        final(out)@ == old(out)@ + u64_bytes(x),
{
    let mut bytes = u64_to_le_bytes(x);
    out.append(&mut bytes);
}

/// Appends the bytes of `x`.
pub fn put_i64(out: &mut Vec<u8>, x: i64)
    ensures
        final(out)@ == old(out)@ + i64_bytes(x),
{
    put_u64(out, x as u64);
}

/// Appends `bytes` as they are.
pub fn put_fixed(out: &mut Vec<u8>, bytes: &[u8])
    ensures
        final(out)@ == old(out)@ + bytes@,
{
    out.extend_from_slice(bytes);
}

/// Appends `bytes` as a chunk.
pub fn put_chunk(out: &mut Vec<u8>, bytes: &[u8])
    ensures
        bytes@.len() <= u64::MAX,
        final(out)@ == old(out)@ + chunk(bytes@),
{
    let n = bytes.len();
    put_u64(out, n as u64);
    put_fixed(out, bytes);
    assert(out@ =~= old(out)@ + chunk(bytes@));
}

/// Reads a `u32` at `pos`, and gives the position behind it.
pub fn take_u32(data: &[u8], pos: usize) -> (r: Option<(u32, usize)>)
    requires
        pos <= data@.len(),
    ensures
        match r {
            Some((x, next)) => pos <= next <= data@.len() && parse_u32(data@.skip(pos as int))
                == Some((x, data@.skip(next as int))),
            None => parse_u32(data@.skip(pos as int)) is None,
        },
{
    if data.len() - pos < 4 {
        return None;
    }
    let x = u32_from_le_bytes(slice_subrange(data, pos, pos + 4));
    proof {
        let s = data@.skip(pos as int);
        assert(s.subrange(0, 4) =~= data@.subrange(pos as int, pos + 4));
        assert(s.skip(4) =~= data@.skip(pos + 4));
    }
    Some((x, pos + 4))
}

/// Reads a `u64` at `pos`, and gives the position behind it.
pub fn take_u64(data: &[u8], pos: usize) -> (r: Option<(u64, usize)>)
    requires
        pos <= data@.len(),
    ensures
        match r {
            Some((x, next)) => pos <= next <= data@.len() && parse_u64(data@.skip(pos as int))
                == Some((x, data@.skip(next as int))),
            None => parse_u64(data@.skip(pos as int)) is None,
        },
{
    if data.len() - pos < 8 {
        return None;
    }
    let x = u64_from_le_bytes(slice_subrange(data, pos, pos + 8));
    proof {
        let s = data@.skip(pos as int);
        assert(s.subrange(0, 8) =~= data@.subrange(pos as int, pos + 8));
        assert(s.skip(8) =~= data@.skip(pos + 8));
    }
    Some((x, pos + 8))
}

/// Reads an `i64` at `pos`, and gives the position behind it.
pub fn take_i64(data: &[u8], pos: usize) -> (r: Option<(i64, usize)>)
    requires
        pos <= data@.len(),
    ensures
        match r {
            Some((x, next)) => pos <= next <= data@.len() && parse_i64(data@.skip(pos as int))
                == Some((x, data@.skip(next as int))),
            None => parse_i64(data@.skip(pos as int)) is None,
        },
{
    match take_u64(data, pos) {
        Some((x, next)) => Some((x as i64, next)),
        None => None,
    }
}

/// Reads `n` bytes at `pos`, and gives the position behind them.
pub fn take_fixed(data: &[u8], pos: usize, n: u64) -> (r: Option<(&[u8], usize)>)
    requires
        pos <= data@.len(),
    ensures
        match r {
            Some((bytes, next)) => pos <= next <= data@.len() && parse_fixed(
                data@.skip(pos as int),
                n as nat,
            ) == Some((bytes@, data@.skip(next as int))),
            None => parse_fixed(data@.skip(pos as int), n as nat) is None,
        },
{
    let left = data.len() - pos;
    if n > left as u64 {
        return None;
    }
    let len = n as usize;
    let bytes = slice_subrange(data, pos, pos + len);
    proof {
        let s = data@.skip(pos as int);
        assert(s.take(n as int) =~= data@.subrange(pos as int, pos + len));
        assert(s.skip(n as int) =~= data@.skip(pos + len));
    }
    Some((bytes, pos + len))
}

/// Reads a chunk at `pos`, and gives the position behind it.
pub fn take_chunk(data: &[u8], pos: usize) -> (r: Option<(&[u8], usize)>)
    requires
        pos <= data@.len(),
    ensures
        match r {
            Some((bytes, next)) => pos <= next <= data@.len() && parse_chunk(data@.skip(pos as int))
                == Some((bytes@, data@.skip(next as int))),
            None => parse_chunk(data@.skip(pos as int)) is None,
        },
{
    match take_u64(data, pos) {
        Some((n, next)) => take_fixed(data, next, n),
        None => None,
    }
}

} // verus!
