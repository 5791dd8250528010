//! A forward-only cursor over a borrowed buffer.
//!
//! Every read first checks that the bytes it wants lie inside the buffer.
//! A read that would pass the end fails with `TruncatedInput` and leaves the
//! offset where it was.

use vstd::prelude::*;
use vstd::slice::slice_subrange;
use crate::error::CodecError;
use crate::format::{u16_at, u32_at};

verus! {

/// Whether `len` bytes starting at `off` lie inside a buffer of `total` bytes.
pub open spec fn in_bounds(total: nat, off: usize, len: usize) -> bool {
    off + len <= total
}

/// Takes the next `len` bytes and moves the offset past them.
pub fn read_bytes<'a>(input: &'a [u8], off: &mut usize, len: usize) -> (r: Result<
    &'a [u8],
    CodecError,
>)
    ensures
        match r {
            Ok(s) => {
                &&& in_bounds(input@.len(), *old(off), len)
                &&& s@ == input@.subrange(*old(off) as int, *old(off) + len)
                &&& *final(off) == *old(off) + len
            },
            Err(e) => {
                &&& !in_bounds(input@.len(), *old(off), len)
                &&& e == CodecError::TruncatedInput
                &&& *final(off) == *old(off)
            },
        },
{
    let start: usize = *off;
    if start > input.len() || len > input.len() - start {
        return Err(CodecError::TruncatedInput);
    }
    let end: usize = start + len;
    *off = end;
    Ok(slice_subrange(input, start, end))
}

/// Takes the next byte and moves the offset past it.
pub fn read_u8(input: &[u8], off: &mut usize) -> (r: Result<u8, CodecError>)
    ensures
        match r {
            Ok(v) => {
                &&& in_bounds(input@.len(), *old(off), 1)
                &&& v == input@[*old(off) as int]
                &&& *final(off) == *old(off) + 1
            },
            Err(e) => {
                &&& !in_bounds(input@.len(), *old(off), 1)
                &&& e == CodecError::TruncatedInput
                &&& *final(off) == *old(off)
            },
        },
{
    let start: usize = *off;
    if start >= input.len() {
        return Err(CodecError::TruncatedInput);
    }
    *off = start + 1;
    Ok(input[start])
}

/// Takes the next two bytes as a little-endian number and moves the offset
/// past them.
pub fn read_u16(input: &[u8], off: &mut usize) -> (r: Result<u16, CodecError>)
    ensures
        match r {
            Ok(v) => {
                &&& in_bounds(input@.len(), *old(off), 2)
                &&& v == u16_at(input@, *old(off) as int)
                &&& *final(off) == *old(off) + 2
            },
            Err(e) => {
                &&& !in_bounds(input@.len(), *old(off), 2)
                &&& e == CodecError::TruncatedInput
                &&& *final(off) == *old(off)
            },
        },
{
    let start: usize = *off;
    if start > input.len() || 2 > input.len() - start {
        return Err(CodecError::TruncatedInput);
    }
    *off = start + 2;
    let b0: u16 = input[start] as u16;
    let b1: u16 = input[start + 1] as u16;
    Ok(b0 + 256 * b1)
}

/// Takes the next four bytes as a little-endian number and moves the offset
/// past them.
pub fn read_u32(input: &[u8], off: &mut usize) -> (r: Result<u32, CodecError>)
    ensures
        match r {
            Ok(v) => {
                &&& in_bounds(input@.len(), *old(off), 4)
                &&& v == u32_at(input@, *old(off) as int)
                &&& *final(off) == *old(off) + 4
            },
            Err(e) => {
                &&& !in_bounds(input@.len(), *old(off), 4)
                &&& e == CodecError::TruncatedInput
                &&& *final(off) == *old(off)
            },
        },
{
    let start: usize = *off;
    if start > input.len() || 4 > input.len() - start {
        return Err(CodecError::TruncatedInput);
    }
    *off = start + 4;
    let b0: u32 = input[start] as u32;
    let b1: u32 = input[start + 1] as u32;
    let b2: u32 = input[start + 2] as u32;
    let b3: u32 = input[start + 3] as u32;
    Ok(b0 + 256 * b1 + 65536 * b2 + 16777216 * b3)
}

} // verus!
