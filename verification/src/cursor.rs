//! The byte cursor that every decoder reads from, and what is assumed of it.
//!
//! The cursor is `bytes_parser::BytesParser`. Nothing in this file is proved, and
//! nothing outside it is assumed: it states what the parser's methods do, over two
//! facts about a parser, the bytes it has not read yet and the byte order it reads
//! integers in.

use crate::errors::KonsumerOffsetsError;
use crate::wire::{be_i16, be_i32, be_i64};
use bytes_parser::BytesParser;
use bytes_parser::BytesParserError;
use vstd::prelude::*;
use vstd::utf8::{decode_utf8, valid_utf8};

verus! {

/// `bytes_parser::BytesParser`: a borrowed byte buffer with a cursor and a byte order.
#[verifier::external_type_specification]
#[verifier::external_body]
pub struct ExBytesParser<'a>(BytesParser<'a>);

/// `bytes_parser::BytesParserError`: carried from the parser's methods to the code
/// that turns it into a [`KonsumerOffsetsError`], and never looked into.
#[verifier::external_type_specification]
#[verifier::external_body]
pub struct ExBytesParserError(BytesParserError);

/// The bytes that `p` has not read yet: its buffer from the cursor to the end.
pub uninterp spec fn unread(p: BytesParser) -> Seq<u8>;

/// Whether `p` assembles integers most significant byte first.
pub uninterp spec fn reads_big_endian(p: BytesParser) -> bool;

/// `BytesParser::parse_slice` fails, and moves nothing, when fewer than `size` bytes
/// are left. Otherwise it consumes `size` bytes and returns them.
pub assume_specification<'a, 'b>[ BytesParser::<'a>::parse_slice ](
    parser: &'b mut BytesParser<'a>,
    size: usize,
) -> (r: Result<&'b [u8], BytesParserError>)
    ensures
        reads_big_endian(*final(parser)) == reads_big_endian(*old(parser)),
        r is Ok <==> unread(*old(parser)).len() >= size,
        r is Err ==> unread(*final(parser)) == unread(*old(parser)),
        r is Ok ==> unread(*final(parser)) == unread(*old(parser)).skip(size as int),
        r is Ok ==> r->Ok_0@ == unread(*old(parser)).take(size as int),
;

/// `BytesParser::from_slice` fails, and moves nothing, when fewer than `size` bytes are
/// left. Otherwise it consumes `size` bytes and returns a parser over exactly those
/// bytes, which starts at their first byte and reads big-endian.
pub assume_specification<'a, 'b>[ BytesParser::<'a>::from_slice ](
    parser: &'b mut BytesParser<'a>,
    size: usize,
) -> (r: Result<BytesParser<'b>, BytesParserError>)
    ensures
        reads_big_endian(*final(parser)) == reads_big_endian(*old(parser)),
        r is Ok <==> unread(*old(parser)).len() >= size,
        r is Err ==> unread(*final(parser)) == unread(*old(parser)),
        r is Ok ==> unread(*final(parser)) == unread(*old(parser)).skip(size as int),
        r is Ok ==> unread(r->Ok_0) == unread(*old(parser)).take(size as int),
        r is Ok ==> reads_big_endian(r->Ok_0),
;

/// `BytesParser::from` on a byte slice: a parser with all of `bytes` still to read,
/// which reads big-endian.
#[verifier::external_body]
pub(crate) fn parser_over<'a>(bytes: &'a [u8]) -> (p: BytesParser<'a>)
    ensures
        unread(p) == bytes@,
        reads_big_endian(p),
{
    BytesParser::from(bytes)
}

/// `BytesParser::parse_i16` on a parser that reads big-endian.
///
/// With fewer than two bytes left it fails for want of bytes and moves nothing.
/// Otherwise it consumes two bytes and returns the `i16` that they hold.
#[verifier::external_body]
pub(crate) fn parse_i16(parser: &mut BytesParser) -> (r: Result<i16, KonsumerOffsetsError>)
    requires
        reads_big_endian(*old(parser)),
    ensures
        reads_big_endian(*final(parser)),
        unread(*old(parser)).len() >= 2 ==> r is Ok && r->Ok_0 == be_i16(unread(*old(parser)))
            && unread(*final(parser)) == unread(*old(parser)).skip(2),
        unread(*old(parser)).len() < 2 ==> r is Err && r->Err_0 is InsufficientData
            && unread(*final(parser)) == unread(*old(parser)),
{
    match parser.parse_i16() {
        Ok(value) => Ok(value),
        Err(_) => Err(KonsumerOffsetsError::InsufficientData),
    }
}

/// `BytesParser::parse_i32` on a parser that reads big-endian.
///
/// With fewer than four bytes left it fails for want of bytes and moves nothing.
/// Otherwise it consumes four bytes and returns the `i32` that they hold.
#[verifier::external_body]
pub(crate) fn parse_i32(parser: &mut BytesParser) -> (r: Result<i32, KonsumerOffsetsError>)
    requires
        reads_big_endian(*old(parser)),
    ensures
        reads_big_endian(*final(parser)),
        unread(*old(parser)).len() >= 4 ==> r is Ok && r->Ok_0 == be_i32(unread(*old(parser)))
            && unread(*final(parser)) == unread(*old(parser)).skip(4),
        unread(*old(parser)).len() < 4 ==> r is Err && r->Err_0 is InsufficientData
            && unread(*final(parser)) == unread(*old(parser)),
{
    match parser.parse_i32() {
        Ok(value) => Ok(value),
        Err(_) => Err(KonsumerOffsetsError::InsufficientData),
    }
}

/// `BytesParser::parse_i64` on a parser that reads big-endian.
///
/// With fewer than eight bytes left it fails for want of bytes and moves nothing.
/// Otherwise it consumes eight bytes and returns the `i64` that they hold.
#[verifier::external_body]
pub(crate) fn parse_i64(parser: &mut BytesParser) -> (r: Result<i64, KonsumerOffsetsError>)
    requires
        reads_big_endian(*old(parser)),
    ensures
        reads_big_endian(*final(parser)),
        unread(*old(parser)).len() >= 8 ==> r is Ok && r->Ok_0 == be_i64(unread(*old(parser)))
            && unread(*final(parser)) == unread(*old(parser)).skip(8),
        unread(*old(parser)).len() < 8 ==> r is Err && r->Err_0 is InsufficientData
            && unread(*final(parser)) == unread(*old(parser)),
{
    match parser.parse_i64() {
        Ok(value) => Ok(value),
        Err(_) => Err(KonsumerOffsetsError::InsufficientData),
    }
}

/// `BytesParser::parse_str_utf8`, with the text copied into a `String`.
///
/// It fails for want of bytes when fewer than `size` are left, and for malformed text
/// when the next `size` bytes are not valid UTF-8; either way it moves nothing.
/// Otherwise it consumes `size` bytes and returns the text that they encode.
#[verifier::external_body]
pub(crate) fn parse_text(parser: &mut BytesParser, size: usize) -> (r: Result<String, KonsumerOffsetsError>)
    ensures
        reads_big_endian(*final(parser)) == reads_big_endian(*old(parser)),
        r is Err ==> unread(*final(parser)) == unread(*old(parser)),
        r is Ok ==> unread(*final(parser)) == unread(*old(parser)).skip(size as int),
        unread(*old(parser)).len() < size ==> r is Err && r->Err_0 is InsufficientData,
        unread(*old(parser)).len() >= size && !valid_utf8(unread(*old(parser)).take(size as int)) ==> r is Err
            && r->Err_0 is MalformedText,
        unread(*old(parser)).len() >= size && valid_utf8(unread(*old(parser)).take(size as int)) ==> r is Ok
            && r->Ok_0@ == decode_utf8(unread(*old(parser)).take(size as int)),
{
    match parser.parse_str_utf8(size) {
        Ok(text) => Ok(text.to_string()),
        Err(BytesParserError::StringParseError(_)) => Err(KonsumerOffsetsError::MalformedText),
        Err(_) => Err(KonsumerOffsetsError::InsufficientData),
    }
}

} // verus!
