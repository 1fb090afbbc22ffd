//! Readers for the primitives of the wire format, on a byte cursor.

use crate::cursor::{parse_i16, parse_i32, parse_text, reads_big_endian, unread};
use crate::errors::KonsumerOffsetsError;
use crate::wire::{decoded, read_byte_array, read_str};
use bytes_parser::BytesParser;
use vstd::prelude::*;
use vstd::slice::slice_to_vec;

verus! {

/// Reads a string: an `i16` length, then that many bytes of UTF-8 text.
///
/// A negative length gives the empty string, not a failure.
pub fn parse_str(parser: &mut BytesParser) -> (r: Result<String, KonsumerOffsetsError>)
    requires
        reads_big_endian(*old(parser)),
    ensures
        reads_big_endian(*final(parser)),
        decoded(r, unread(*final(parser)), read_str(unread(*old(parser)))),
{
    proof {
        reveal(read_str);
    }
    let len: i16 = parse_i16(parser)?;
    if len < 0 {
        return Ok(String::new());
    }
    parse_text(parser, len as usize)
}

/// Reads a byte array: an `i32` length, then that many bytes as they are.
///
/// A negative length fails as one that exceeds the bytes left.
pub fn parse_vec_bytes(parser: &mut BytesParser) -> (r: Result<Vec<u8>, KonsumerOffsetsError>)
    requires
        reads_big_endian(*old(parser)),
    ensures
        reads_big_endian(*final(parser)),
        decoded(r, unread(*final(parser)), read_byte_array(unread(*old(parser)))),
{
    let len: i32 = parse_i32(parser)?;
    if len < 0 {
        return Err(KonsumerOffsetsError::InsufficientData);
    }
    match parser.parse_slice(len as usize) {
        Ok(bytes) => Ok(slice_to_vec(bytes)),
        Err(_) => Err(KonsumerOffsetsError::InsufficientData),
    }
}

/// Accepts exactly the types that can be sent to, shared between and moved across
/// threads: a call of it compiles only for such a type.
pub fn is_thread_safe<T: Sized + Send + Sync + Unpin>() {
}

} // verus!
