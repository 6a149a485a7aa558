//! Primitive little-endian reads over a byte slice, each mirrored by a spec
//! function, and little-endian writes onto a growing byte vector.
use vstd::prelude::*;
use vstd::bytes::*;
use vstd::slice::{slice_index_get, slice_subrange, slice_to_vec};
use crate::tag::BinError;

verus! {

/// The outcome of running a parser over a byte sequence from a position:
/// either a value together with the position just past its bytes, or the
/// error that aborts the whole decode.
#[verifier::ext_equal]
pub ghost enum Parsed<T> {
    Found(T, int),
    Fail(BinError),
}

impl<T> Parsed<T> {
    /// The parsed value, on the success side.
    pub open spec fn value(self) -> T
        recommends
            self is Found,
    {
        self->Found_0
    }

    /// The position just past the parsed bytes, on the success side.
    pub open spec fn end(self) -> int
        recommends
            self is Found,
    {
        self->Found_1
    }

    /// The error, on the failure side.
    pub open spec fn err(self) -> BinError
        recommends
            self is Fail,
    {
        self->Fail_0
    }
}

/// One byte at `pos`.
pub open spec fn rd_u8(s: Seq<u8>, pos: int) -> Parsed<u8> {
    if 0 <= pos && pos + 1 <= s.len() {
        Parsed::Found(s[pos], pos + 1)
    } else {
        Parsed::Fail(BinError::TruncatedInput)
    }
}

/// Two little-endian bytes at `pos`.
pub open spec fn rd_u16(s: Seq<u8>, pos: int) -> Parsed<u16> {
    if 0 <= pos && pos + 2 <= s.len() {
        Parsed::Found(spec_u16_from_le_bytes(s.subrange(pos, pos + 2)), pos + 2)
    } else {
        Parsed::Fail(BinError::TruncatedInput)
    }
}

/// Four little-endian bytes at `pos`.
pub open spec fn rd_u32(s: Seq<u8>, pos: int) -> Parsed<u32> {
    if 0 <= pos && pos + 4 <= s.len() {
        Parsed::Found(spec_u32_from_le_bytes(s.subrange(pos, pos + 4)), pos + 4)
    } else {
        Parsed::Fail(BinError::TruncatedInput)
    }
}

/// Eight little-endian bytes at `pos`.
pub open spec fn rd_u64(s: Seq<u8>, pos: int) -> Parsed<u64> {
    if 0 <= pos && pos + 8 <= s.len() {
        Parsed::Found(spec_u64_from_le_bytes(s.subrange(pos, pos + 8)), pos + 8)
    } else {
        Parsed::Fail(BinError::TruncatedInput)
    }
}

/// `n` raw bytes at `pos`.
pub open spec fn rd_bytes(s: Seq<u8>, pos: int, n: int) -> Parsed<Seq<u8>> {
    if 0 <= pos && 0 <= n && pos + n <= s.len() {
        Parsed::Found(s.subrange(pos, pos + n), pos + n)
    } else {
        Parsed::Fail(BinError::TruncatedInput)
    }
}

/// Reads one byte, as `rd_u8` describes.
pub fn get_u8(data: &[u8], pos: usize) -> (r: Result<(u8, usize), BinError>)
    ensures
        (match r {
            Ok((v, end)) => rd_u8(data@, pos as int) == Parsed::Found(v, end as int) && pos < end
                <= data@.len(),
            Err(e) => rd_u8(data@, pos as int) == Parsed::<u8>::Fail(e),
        }),
{
    if pos < data.len() {
        Ok((*slice_index_get(data, pos), pos + 1))
    } else {
        Err(BinError::TruncatedInput)
    }
}

/// Reads a little-endian `u16`, as `rd_u16` describes.
pub fn get_u16(data: &[u8], pos: usize) -> (r: Result<(u16, usize), BinError>)
    ensures
        (match r {
            Ok((v, end)) => rd_u16(data@, pos as int) == Parsed::Found(v, end as int) && pos < end
                <= data@.len(),
            Err(e) => rd_u16(data@, pos as int) == Parsed::<u16>::Fail(e),
        }),
{
    if pos < data.len() && 2 <= data.len() - pos {
        let v = u16_from_le_bytes(slice_subrange(data, pos, pos + 2));
        Ok((v, pos + 2))
    } else {
        Err(BinError::TruncatedInput)
    }
}

/// Reads a little-endian `u32`, as `rd_u32` describes.
pub fn get_u32(data: &[u8], pos: usize) -> (r: Result<(u32, usize), BinError>)
    ensures
        (match r {
            Ok((v, end)) => rd_u32(data@, pos as int) == Parsed::Found(v, end as int) && pos < end
                <= data@.len(),
            Err(e) => rd_u32(data@, pos as int) == Parsed::<u32>::Fail(e),
        }),
{
    if pos < data.len() && 4 <= data.len() - pos {
        let v = u32_from_le_bytes(slice_subrange(data, pos, pos + 4));
        Ok((v, pos + 4))
    } else {
        Err(BinError::TruncatedInput)
    }
}

/// Reads a little-endian `u64`, as `rd_u64` describes.
pub fn get_u64(data: &[u8], pos: usize) -> (r: Result<(u64, usize), BinError>)
    ensures
        (match r {
            Ok((v, end)) => rd_u64(data@, pos as int) == Parsed::Found(v, end as int) && pos < end
                <= data@.len(),
            Err(e) => rd_u64(data@, pos as int) == Parsed::<u64>::Fail(e),
        }),
{
    if pos < data.len() && 8 <= data.len() - pos {
        let v = u64_from_le_bytes(slice_subrange(data, pos, pos + 8));
        Ok((v, pos + 8))
    } else {
        Err(BinError::TruncatedInput)
    }
}

/// Copies `n` raw bytes, as `rd_bytes` describes.
pub fn get_bytes(data: &[u8], pos: usize, n: usize) -> (r: Result<(Vec<u8>, usize), BinError>)
    ensures
        (match r {
            Ok((v, end)) => rd_bytes(data@, pos as int, n as int) == Parsed::Found(v@, end as int)
                && pos <= end <= data@.len(),
            Err(e) => rd_bytes(data@, pos as int, n as int) == Parsed::<Seq<u8>>::Fail(e),
        }),
{
    if pos <= data.len() && n <= data.len() - pos {
        let v = slice_to_vec(slice_subrange(data, pos, pos + n));
        Ok((v, pos + n))
    } else {
        Err(BinError::TruncatedInput)
    }
}

/// Appends one byte.
pub fn put_u8(out: &mut Vec<u8>, v: u8)
    ensures
        final(out)@ == old(out)@ + seq![v],
{
    out.push(v);
}

/// Appends a `u16` as two little-endian bytes.
pub fn put_u16(out: &mut Vec<u8>, v: u16)
    ensures
        final(out)@ == old(out)@ + spec_u16_to_le_bytes(v),
{
    let mut bs = u16_to_le_bytes(v);
    out.append(&mut bs);
}

/// Appends a `u32` as four little-endian bytes.
pub fn put_u32(out: &mut Vec<u8>, v: u32)
    ensures
        final(out)@ == old(out)@ + spec_u32_to_le_bytes(v),
{
    let mut bs = u32_to_le_bytes(v);
    out.append(&mut bs);
}

/// Appends a `u64` as eight little-endian bytes.
pub fn put_u64(out: &mut Vec<u8>, v: u64)
    ensures
        final(out)@ == old(out)@ + spec_u64_to_le_bytes(v),
{
    let mut bs = u64_to_le_bytes(v);
    out.append(&mut bs);
}

/// Appends a copy of every byte of `src`.
pub fn put_bytes(out: &mut Vec<u8>, src: &Vec<u8>)
    ensures
        final(out)@ == old(out)@ + src@,
{
    let mut copy = slice_to_vec(src.as_slice());
    out.append(&mut copy);
}

} // verus!
