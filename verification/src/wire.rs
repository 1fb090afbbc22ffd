//! The wire format's primitives, as functions on byte sequences.
//!
//! A reader is a function from the bytes that are left to either a value and the
//! bytes after it, or the failure that ends the decoding.

use crate::errors::{ErrorView, KonsumerOffsetsError};
use vstd::prelude::*;
use vstd::utf8::{decode_utf8, valid_utf8};

verus! {

/// What a reader yields: the value and the bytes that follow it, or a failure.
pub type Reading<T> = Result<(T, Seq<u8>), ErrorView>;

/// The unsigned number that the first two bytes of `b` spell, most significant first.
pub open spec fn be_u16(b: Seq<u8>) -> int {
    b[0] as int * 0x100 + b[1] as int
}

/// The unsigned number that the first four bytes of `b` spell, most significant first.
pub open spec fn be_u32(b: Seq<u8>) -> int {
    b[0] as int * 0x100_0000 + b[1] as int * 0x1_0000 + b[2] as int * 0x100 + b[3] as int
}

/// The unsigned number that the first eight bytes of `b` spell, most significant first.
pub open spec fn be_u64(b: Seq<u8>) -> int {
    be_u32(b) * 0x1_0000_0000 + be_u32(b.skip(4))
}

/// `u` read as a two's complement number whose sign bit is worth `half`.
pub open spec fn signed(u: int, half: int) -> int {
    if u >= half {
        u - 2 * half
    } else {
        u
    }
}

/// The `i16` that the first two bytes of `b` hold in big-endian order.
pub open spec fn be_i16(b: Seq<u8>) -> i16 {
    signed(be_u16(b), 0x8000) as i16
}

/// The `i32` that the first four bytes of `b` hold in big-endian order.
pub open spec fn be_i32(b: Seq<u8>) -> i32 {
    signed(be_u32(b), 0x8000_0000) as i32
}

/// The `i64` that the first eight bytes of `b` hold in big-endian order.
pub open spec fn be_i64(b: Seq<u8>) -> i64 {
    signed(be_u64(b), 0x8000_0000_0000_0000) as i64
}

/// Reads a big-endian `i16`: two bytes.
pub open spec fn read_i16(s: Seq<u8>) -> Reading<i16> {
    if s.len() >= 2 {
        Ok((be_i16(s), s.skip(2)))
    } else {
        Err(ErrorView::InsufficientData)
    }
}

/// Reads a big-endian `i32`: four bytes.
pub open spec fn read_i32(s: Seq<u8>) -> Reading<i32> {
    if s.len() >= 4 {
        Ok((be_i32(s), s.skip(4)))
    } else {
        Err(ErrorView::InsufficientData)
    }
}

/// Reads a big-endian `i64`: eight bytes.
pub open spec fn read_i64(s: Seq<u8>) -> Reading<i64> {
    if s.len() >= 8 {
        Ok((be_i64(s), s.skip(8)))
    } else {
        Err(ErrorView::InsufficientData)
    }
}

/// Reads `len` bytes of UTF-8 text.
pub open spec fn read_text(s: Seq<u8>, len: int) -> Reading<Seq<char>> {
    if s.len() < len {
        Err(ErrorView::InsufficientData)
    } else if !valid_utf8(s.take(len)) {
        Err(ErrorView::MalformedText)
    } else {
        Ok((decode_utf8(s.take(len)), s.skip(len)))
    }
}

/// Reads a string: an `i16` length, then that many bytes of UTF-8 text.
/// A negative length stands for the empty string and is no failure.
#[verifier::opaque]
pub open spec fn read_str(s: Seq<u8>) -> Reading<Seq<char>> {
    match read_i16(s) {
        Err(e) => Err(e),
        Ok((len, rest)) => if len < 0 {
            Ok((Seq::empty(), rest))
        } else {
            read_text(rest, len as int)
        },
    }
}

/// Reads a byte array: an `i32` length, then that many bytes as they are.
/// A negative length can never be met and fails like one that is too large.
pub open spec fn read_byte_array(s: Seq<u8>) -> Reading<Seq<u8>> {
    match read_i32(s) {
        Err(e) => Err(e),
        Ok((len, rest)) => if len < 0 || rest.len() < len {
            Err(ErrorView::InsufficientData)
        } else {
            Ok((rest.take(len as int), rest.skip(len as int)))
        },
    }
}

/// Reads an `i32` where `present` holds, and yields `absent` without reading otherwise.
pub open spec fn read_i32_if(present: bool, absent: i32, s: Seq<u8>) -> Reading<i32> {
    if present {
        read_i32(s)
    } else {
        Ok((absent, s))
    }
}

/// Reads an `i64` where `present` holds, and yields `absent` without reading otherwise.
pub open spec fn read_i64_if(present: bool, absent: i64, s: Seq<u8>) -> Reading<i64> {
    if present {
        read_i64(s)
    } else {
        Ok((absent, s))
    }
}

/// Reads a string where `present` holds, and yields the empty string without reading
/// otherwise.
pub open spec fn read_str_if(present: bool, s: Seq<u8>) -> Reading<Seq<char>> {
    if present {
        read_str(s)
    } else {
        Ok((Seq::empty(), s))
    }
}

/// Reads `n` items one after the other with the reader `item`.
pub open spec fn read_many<T>(item: spec_fn(Seq<u8>) -> Reading<T>, n: nat, s: Seq<u8>) -> Reading<Seq<T>>
    decreases n,
{
    if n == 0 {
        Ok((Seq::empty(), s))
    } else {
        match item(s) {
            Err(e) => Err(e),
            Ok((first, rest)) => match read_many(item, (n - 1) as nat, rest) {
                Err(e) => Err(e),
                Ok((others, end)) => Ok((seq![first] + others, end)),
            },
        }
    }
}

/// `reading` with the items `done` put in front of what it yields.
pub open spec fn after<T>(done: Seq<T>, reading: Reading<Seq<T>>) -> Reading<Seq<T>> {
    match reading {
        Err(e) => Err(e),
        Ok((others, end)) => Ok((done + others, end)),
    }
}

/// Reads a list: an `i32` count, then that many items. A count of zero or less stands
/// for the empty list.
#[verifier::opaque]
pub open spec fn read_list<T>(item: spec_fn(Seq<u8>) -> Reading<T>, s: Seq<u8>) -> Reading<Seq<T>> {
    match read_i32(s) {
        Err(e) => Err(e),
        Ok((count, rest)) => if count > 0 {
            read_many(item, count as nat, rest)
        } else {
            Ok((Seq::empty(), rest))
        },
    }
}

/// Whether a decoder that returned `r` and left `rest` unread did what `expected` says:
/// the same value and the same bytes left, or the same failure.
pub open spec fn decoded<T: DeepView>(
    r: Result<T, KonsumerOffsetsError>,
    rest: Seq<u8>,
    expected: Reading<T::V>,
) -> bool {
    match expected {
        Ok((v, tail)) => r is Ok && r->Ok_0.deep_view() =~~= v && rest =~= tail,
        Err(e) => r is Err && r->Err_0@ == e,
    }
}

/// Reads a list where `present` holds, and yields the empty list without reading
/// otherwise.
pub open spec fn read_list_if<T>(present: bool, item: spec_fn(Seq<u8>) -> Reading<T>, s: Seq<u8>) -> Reading<
    Seq<T>,
> {
    if present {
        read_list(item, s)
    } else {
        Ok((Seq::empty(), s))
    }
}

/// Whether filling a record from a payload went as `expected` says: on success the
/// record `after` and the bytes `rest` left are those expected; on failure the error
/// is the one expected and the record is as it was `before`.
pub open spec fn filled<T: DeepView>(
    r: Result<(), KonsumerOffsetsError>,
    before: T,
    after: T,
    rest: Seq<u8>,
    expected: Reading<T::V>,
) -> bool {
    match expected {
        Ok((record, tail)) => r is Ok && after.deep_view() =~~= record && rest =~= tail,
        Err(e) => r is Err && r->Err_0@ == e && after == before,
    }
}

/// Reads a blob: an `i32` length, then that many bytes, which `inner` decodes on their
/// own. The length alone says where the blob ends: what `inner` leaves unread of it is
/// dropped, and `inner` sees nothing beyond it.
#[verifier::opaque]
pub open spec fn read_blob<T>(inner: spec_fn(Seq<u8>) -> Reading<T>, s: Seq<u8>) -> Reading<T> {
    match read_i32(s) {
        Err(e) => Err(e),
        Ok((len, rest)) => if len < 0 || rest.len() < len {
            Err(ErrorView::InsufficientData)
        } else {
            match inner(rest.take(len as int)) {
                Err(e) => Err(e),
                Ok((value, _)) => Ok((value, rest.skip(len as int))),
            }
        },
    }
}

/// The reader of one big-endian `i32`.
pub open spec fn i32_reader() -> spec_fn(Seq<u8>) -> Reading<i32> {
    |s: Seq<u8>| read_i32(s)
}

/// The reader of one string.
pub open spec fn str_reader() -> spec_fn(Seq<u8>) -> Reading<Seq<char>> {
    |s: Seq<u8>| read_str(s)
}

/// With nothing put in front, a reading is what it was.
pub proof fn lemma_after_nothing<T>(reading: Reading<Seq<T>>)
    ensures
        after(Seq::empty(), reading) == reading,
{
    match reading {
        Err(e) => {},
        Ok((others, end)) => {
            assert(Seq::<T>::empty() + others =~= others);
        },
    }
}

/// With no item left to read, the items read so far are the list.
pub proof fn lemma_read_many_done<T>(item: spec_fn(Seq<u8>) -> Reading<T>, done: Seq<T>, s: Seq<u8>)
    ensures
        after(done, read_many(item, 0, s)) == Ok::<(Seq<T>, Seq<u8>), ErrorView>((done, s)),
{
    assert(done + Seq::<T>::empty() =~= done);
}

/// Reading one item more: `read_many` for `n` items is the first item, then the
/// other `n - 1`.
pub proof fn lemma_read_many_step<T>(
    item: spec_fn(Seq<u8>) -> Reading<T>,
    done: Seq<T>,
    n: nat,
    s: Seq<u8>,
)
    requires
        n > 0,
    ensures
        item(s) matches Err(e) ==> after(done, read_many(item, n, s)) == Err::<(Seq<T>, Seq<u8>), ErrorView>(e),
        item(s) matches Ok((v, rest)) ==> after(done, read_many(item, n, s)) == after(
            done.push(v),
            read_many(item, (n - 1) as nat, rest),
        ),
{
    match item(s) {
        Err(e) => {},
        Ok((v, rest)) => {
            match read_many(item, (n - 1) as nat, rest) {
                Err(e) => {},
                Ok((others, end)) => {
                    assert(done + (seq![v] + others) =~= done.push(v) + others);
                },
            }
        },
    }
}

/// A string whose length prefix is negative is the empty string, and no failure: only
/// the two bytes of the prefix are consumed.
pub proof fn lemma_negative_length_is_empty_string(s: Seq<u8>)
    requires
        s.len() >= 2,
        be_i16(s) < 0,
    ensures
        read_str(s) == Ok::<(Seq<char>, Seq<u8>), ErrorView>((Seq::empty(), s.skip(2))),
{
    reveal(read_str);
}

/// A byte array whose length prefix is negative, or larger than what follows it, fails
/// for want of bytes.
pub proof fn lemma_byte_array_needs_its_length(s: Seq<u8>)
    requires
        s.len() >= 4,
        be_i32(s) < 0 || be_i32(s) > s.len() - 4,
    ensures
        read_byte_array(s) == Err::<(Seq<u8>, Seq<u8>), ErrorView>(ErrorView::InsufficientData),
{
}

/// Reading `n` items yields `n` items.
pub proof fn lemma_read_many_len<T>(item: spec_fn(Seq<u8>) -> Reading<T>, n: nat, s: Seq<u8>)
    ensures
        read_many(item, n, s) matches Ok((items, rest)) ==> items.len() == n,
    decreases n,
{
    if n > 0 {
        if let Ok((first, rest)) = item(s) {
            lemma_read_many_len(item, (n - 1) as nat, rest);
        }
    }
}

/// A list has as many items as its count says, and none where the count is zero or
/// less.
pub proof fn lemma_read_list_len<T>(item: spec_fn(Seq<u8>) -> Reading<T>, s: Seq<u8>)
    ensures
        read_list(item, s) matches Ok((items, rest)) ==> s.len() >= 4 && items.len() == (if be_i32(s) > 0 {
            be_i32(s) as int
        } else {
            0int
        }),
{
    reveal(read_list);
    if let Ok((count, rest)) = read_i32(s) {
        if count > 0 {
            lemma_read_many_len(item, count as nat, rest);
        }
    }
}

} // verus!
