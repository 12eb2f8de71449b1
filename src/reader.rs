//! Big-endian reads from a byte slice at a given position.
use vstd::prelude::*;

use crate::error::{DecodeError, Error};

verus! {

/// The unsigned big-endian value of `b[p..p+2]`.
pub open spec fn be16(b: Seq<u8>, p: int) -> int {
    b[p] as int * 256 + b[p + 1] as int
}

/// The unsigned big-endian value of `b[p..p+4]`.
pub open spec fn be32(b: Seq<u8>, p: int) -> int {
    be16(b, p) * 65536 + be16(b, p + 2)
}

/// The two's complement reading of the 16-bit value `v`.
pub open spec fn signed16(v: int) -> int {
    if v >= 0x8000 { v - 0x10000 } else { v }
}

/// The two's complement reading of the 32-bit value `v`.
pub open spec fn signed32(v: int) -> int {
    if v >= 0x8000_0000 { v - 0x1_0000_0000 } else { v }
}

/// The two's complement reading of the 8-bit value `v`.
pub open spec fn signed8(v: int) -> int {
    if v >= 0x80 { v - 0x100 } else { v }
}

pub open spec fn truncated() -> Error {
    Error::BinaryError(DecodeError::UnexpectedEnd)
}

pub fn read_u8(b: &[u8], p: usize) -> (r: Result<u8, Error>)
    ensures
        p < b@.len() ==> r == Ok::<u8, Error>(b@[p as int]),
        r is Ok ==> p < b@.len(),
        b@.len() <= usize::MAX,
        p >= b@.len() ==> r == Err::<u8, Error>(truncated()),
{
    if p < b.len() {
        Ok(b[p])
    } else {
        Err(Error::BinaryError(DecodeError::UnexpectedEnd))
    }
}

pub fn read_u16(b: &[u8], p: usize) -> (r: Result<u16, Error>)
    ensures
        p + 2 <= b@.len() ==> (r matches Ok(v) && v as int == be16(b@, p as int)),
        p + 2 > b@.len() ==> r == Err::<u16, Error>(truncated()),
        r is Ok ==> p + 2 <= b@.len(),
        b@.len() <= usize::MAX,
{
    if p < b.len() && b.len() - p >= 2 {
        let hi = b[p] as u16;
        let lo = b[p + 1] as u16;
        Ok(hi * 256 + lo)
    } else {
        Err(Error::BinaryError(DecodeError::UnexpectedEnd))
    }
}

pub fn read_u32(b: &[u8], p: usize) -> (r: Result<u32, Error>)
    ensures
        p + 4 <= b@.len() ==> (r matches Ok(v) && v as int == be32(b@, p as int)),
        p + 4 > b@.len() ==> r == Err::<u32, Error>(truncated()),
        r is Ok ==> p + 4 <= b@.len(),
        b@.len() <= usize::MAX,
{
    if p < b.len() && b.len() - p >= 4 {
        let hi = b[p] as u32 * 256 + b[p + 1] as u32;
        let lo = b[p + 2] as u32 * 256 + b[p + 3] as u32;
        Ok(hi * 65536 + lo)
    } else {
        Err(Error::BinaryError(DecodeError::UnexpectedEnd))
    }
}

pub fn read_i8(b: &[u8], p: usize) -> (r: Result<i8, Error>)
    ensures
        p < b@.len() ==> (r matches Ok(v) && v as int == signed8(b@[p as int] as int)),
        p >= b@.len() ==> r == Err::<i8, Error>(truncated()),
        r is Ok ==> p < b@.len(),
        b@.len() <= usize::MAX,
{
    let v = read_u8(b, p)?;
    if v >= 128 {
        Ok((v as i16 - 256) as i8)
    } else {
        Ok(v as i8)
    }
}

pub fn read_i16(b: &[u8], p: usize) -> (r: Result<i16, Error>)
    ensures
        p + 2 <= b@.len() ==> (r matches Ok(v) && v as int == signed16(be16(b@, p as int))),
        p + 2 > b@.len() ==> r == Err::<i16, Error>(truncated()),
        r is Ok ==> p + 2 <= b@.len(),
        b@.len() <= usize::MAX,
{
    let v = read_u16(b, p)?;
    if v >= 0x8000 {
        Ok((v as i32 - 0x10000) as i16)
    } else {
        Ok(v as i16)
    }
}

pub fn read_i32(b: &[u8], p: usize) -> (r: Result<i32, Error>)
    ensures
        p + 4 <= b@.len() ==> (r matches Ok(v) && v as int == signed32(be32(b@, p as int))),
        p + 4 > b@.len() ==> r == Err::<i32, Error>(truncated()),
        r is Ok ==> p + 4 <= b@.len(),
        b@.len() <= usize::MAX,
{
    let v = read_u32(b, p)?;
    if v >= 0x8000_0000 {
        Ok((v as i64 - 0x1_0000_0000) as i32)
    } else {
        Ok(v as i32)
    }
}

/// The two's complement reading of the 64-bit value `v`.
pub open spec fn signed64(v: int) -> int {
    if v >= 0x8000_0000_0000_0000 { v - 0x1_0000_0000_0000_0000 } else { v }
}

/// The 64-bit big-endian value of `b[p..p+8]`, unsigned.
pub open spec fn be64(b: Seq<u8>, p: int) -> int {
    be32(b, p) * 0x1_0000_0000 + be32(b, p + 4)
}

pub fn read_u64(b: &[u8], p: usize) -> (r: Result<u64, Error>)
    ensures
        p + 8 <= b@.len() ==> (r matches Ok(v) && v as int == be64(b@, p as int)),
        p + 8 > b@.len() ==> r == Err::<u64, Error>(truncated()),
        r is Ok ==> p + 8 <= b@.len(),
        b@.len() <= usize::MAX,
{
    if p < b.len() && b.len() - p >= 8 {
        let hi = read_u32(b, p)?;
        let lo = read_u32(b, p + 4)?;
        Ok(hi as u64 * 0x1_0000_0000 + lo as u64)
    } else {
        Err(Error::BinaryError(DecodeError::UnexpectedEnd))
    }
}

} // verus!
