//! Every reader reads a prefix of its input and nothing else.
//!
//! A reader that succeeds on some bytes has consumed their first `n` bytes, for some
//! `n`: the bytes left are the input without them, and the same `n` bytes followed by
//! anything else give the same value and leave exactly what follows. So no reader
//! stops short of the end of its value, and none looks beyond it.

use crate::errors::ErrorView;
use crate::wire::{
    i32_reader, read_blob, read_byte_array, read_i16, read_i32, read_i32_if, read_i64, read_i64_if, read_list,
    read_list_if, read_many, read_str, read_str_if, str_reader, Reading,
};
use vstd::prelude::*;

verus! {

/// Whether `reader`, if it succeeds on `s`, has consumed a prefix of `s` and read
/// nothing of what follows that prefix: with `t` in place of what follows, it yields
/// the same value and leaves `t`.
pub open spec fn framed<T>(reader: spec_fn(Seq<u8>) -> Reading<T>, s: Seq<u8>, t: Seq<u8>) -> bool {
    reader(s) matches Ok((value, rest)) ==> {
        let n = s.len() - rest.len();
        &&& 0 <= n <= s.len()
        &&& rest == s.skip(n)
        &&& reader(s.take(n) + t) == Ok::<(T, Seq<u8>), ErrorView>((value, t))
    }
}

/// Whether `reader` consumes a prefix of its input and reads nothing else, whatever
/// the input and whatever follows the prefix.
pub open spec fn frames<T>(reader: spec_fn(Seq<u8>) -> Reading<T>) -> bool {
    forall|s: Seq<u8>, t: Seq<u8>| #[trigger] framed(reader, s, t)
}

/// The reader of one big-endian `i16`.
pub open spec fn i16_reader() -> spec_fn(Seq<u8>) -> Reading<i16> {
    |s: Seq<u8>| read_i16(s)
}

/// The reader of one big-endian `i64`.
pub open spec fn i64_reader() -> spec_fn(Seq<u8>) -> Reading<i64> {
    |s: Seq<u8>| read_i64(s)
}

/// The reader of one byte array.
pub open spec fn byte_array_reader() -> spec_fn(Seq<u8>) -> Reading<Seq<u8>> {
    |s: Seq<u8>| read_byte_array(s)
}

/// The reader of an `i32` that is there where `present` holds.
pub open spec fn i32_if_reader(present: bool, absent: i32) -> spec_fn(Seq<u8>) -> Reading<i32> {
    |s: Seq<u8>| read_i32_if(present, absent, s)
}

/// The reader of an `i64` that is there where `present` holds.
pub open spec fn i64_if_reader(present: bool, absent: i64) -> spec_fn(Seq<u8>) -> Reading<i64> {
    |s: Seq<u8>| read_i64_if(present, absent, s)
}

/// The reader of a string that is there where `present` holds.
pub open spec fn str_if_reader(present: bool) -> spec_fn(Seq<u8>) -> Reading<Seq<char>> {
    |s: Seq<u8>| read_str_if(present, s)
}

/// The reader of a list of what `item` reads.
pub open spec fn list_reader<T>(item: spec_fn(Seq<u8>) -> Reading<T>) -> spec_fn(Seq<u8>) -> Reading<Seq<T>> {
    |s: Seq<u8>| read_list(item, s)
}

/// The reader of a list that is there where `present` holds.
pub open spec fn list_if_reader<T>(present: bool, item: spec_fn(Seq<u8>) -> Reading<T>) -> spec_fn(
    Seq<u8>,
) -> Reading<Seq<T>> {
    |s: Seq<u8>| read_list_if(present, item, s)
}

/// The reader of a blob that `inner` decodes.
pub open spec fn blob_reader<T>(inner: spec_fn(Seq<u8>) -> Reading<T>) -> spec_fn(Seq<u8>) -> Reading<T> {
    |s: Seq<u8>| read_blob(inner, s)
}

/// A field inside a record: where `reader` frames and succeeds on `s` from position
/// `a` on, it ends at a position `b` between `a` and the end of `s`; and where the
/// record ends at `c`, not before `b`, the reader yields the same value on the
/// record's bytes from `a` on, followed by `t`, and leaves the record's bytes from
/// `b` on, followed by `t`.
pub proof fn lemma_field<T>(reader: spec_fn(Seq<u8>) -> Reading<T>, s: Seq<u8>, a: int, c: int, t: Seq<u8>)
    requires
        frames(reader),
        0 <= a <= s.len(),
        reader(s.skip(a)) is Ok,
    ensures
        ({
            let (value, rest) = reader(s.skip(a))->Ok_0;
            let b = s.len() - rest.len();
            &&& a <= b <= s.len()
            &&& rest == s.skip(b)
            &&& b <= c <= s.len() ==> reader(s.subrange(a, c) + t) == Ok::<(T, Seq<u8>), ErrorView>(
                (value, s.subrange(b, c) + t),
            )
        }),
{
    let (value, rest) = reader(s.skip(a))->Ok_0;
    let b = s.len() - rest.len();
    let n = s.skip(a).len() - rest.len();
    assert(framed(reader, s.skip(a), Seq::<u8>::empty()));
    assert(s.skip(a).skip(n) =~= s.skip(b));
    if b <= c <= s.len() {
        assert(framed(reader, s.skip(a), s.subrange(b, c) + t));
        assert(s.skip(a).take(n) + (s.subrange(b, c) + t) =~= s.subrange(a, c) + t);
    }
}

/// A record starts at its first byte and ends where its last field ends.
pub proof fn lemma_record_bounds(s: Seq<u8>, c: int, t: Seq<u8>)
    requires
        0 <= c <= s.len(),
    ensures
        s.skip(0) == s,
        s.subrange(0, c) + t == s.take(c) + t,
        s.subrange(c, c) + t == t,
{
    assert(s.skip(0) =~= s);
    assert(s.subrange(0, c) =~= s.take(c));
    assert(s.subrange(c, c) + t =~= t);
}

pub proof fn lemma_i16_reader_frames()
    ensures
        frames(i16_reader()),
{
    assert forall|s: Seq<u8>, t: Seq<u8>| #[trigger] framed(i16_reader(), s, t) by {
        if s.len() >= 2 {
            let u = s.take(2) + t;
            assert(u[0] == s[0] && u[1] == s[1]);
            assert(u.skip(2) =~= t);
        }
    }
}

pub proof fn lemma_i32_reader_frames()
    ensures
        frames(i32_reader()),
{
    assert forall|s: Seq<u8>, t: Seq<u8>| #[trigger] framed(i32_reader(), s, t) by {
        if s.len() >= 4 {
            let u = s.take(4) + t;
            assert(u[0] == s[0] && u[1] == s[1] && u[2] == s[2] && u[3] == s[3]);
            assert(u.skip(4) =~= t);
        }
    }
}

pub proof fn lemma_i64_reader_frames()
    ensures
        frames(i64_reader()),
{
    assert forall|s: Seq<u8>, t: Seq<u8>| #[trigger] framed(i64_reader(), s, t) by {
        if s.len() >= 8 {
            let u = s.take(8) + t;
            assert(u[0] == s[0] && u[1] == s[1] && u[2] == s[2] && u[3] == s[3]);
            assert(u.skip(4)[0] == s.skip(4)[0] && u.skip(4)[1] == s.skip(4)[1] && u.skip(4)[2] == s.skip(4)[2]
                && u.skip(4)[3] == s.skip(4)[3]);
            assert(u.skip(8) =~= t);
        }
    }
}

pub proof fn lemma_str_reader_frames()
    ensures
        frames(str_reader()),
{
    reveal(read_str);
    assert forall|s: Seq<u8>, t: Seq<u8>| #[trigger] framed(str_reader(), s, t) by {
        if let Ok((value, rest)) = read_str(s) {
            let len = read_i16(s)->Ok_0.0;
            let n = s.len() - rest.len();
            let u = s.take(n) + t;
            assert(u[0] == s[0] && u[1] == s[1]);
            if len < 0 {
                assert(u.skip(2) =~= t);
            } else {
                assert(u.skip(2).take(len as int) =~= s.skip(2).take(len as int));
                assert(u.skip(2).skip(len as int) =~= t);
                assert(s.skip(2).skip(len as int) =~= s.skip(n));
            }
        }
    }
}

pub proof fn lemma_byte_array_reader_frames()
    ensures
        frames(byte_array_reader()),
{
    assert forall|s: Seq<u8>, t: Seq<u8>| #[trigger] framed(byte_array_reader(), s, t) by {
        if let Ok((value, rest)) = read_byte_array(s) {
            let len = read_i32(s)->Ok_0.0;
            let n = s.len() - rest.len();
            let u = s.take(n) + t;
            assert(u[0] == s[0] && u[1] == s[1] && u[2] == s[2] && u[3] == s[3]);
            assert(u.skip(4).take(len as int) =~= s.skip(4).take(len as int));
            assert(u.skip(4).skip(len as int) =~= t);
            assert(s.skip(4).skip(len as int) =~= s.skip(n));
        }
    }
}

/// A reader that reads nothing where its field is absent frames, as the reader of the
/// field does where it is present.
pub proof fn lemma_optional_readers_frame(present: bool, absent32: i32, absent64: i64)
    ensures
        frames(i32_if_reader(present, absent32)),
        frames(i64_if_reader(present, absent64)),
        frames(str_if_reader(present)),
{
    lemma_i32_reader_frames();
    lemma_i64_reader_frames();
    lemma_str_reader_frames();
    assert forall|s: Seq<u8>, t: Seq<u8>| #[trigger] framed(i32_if_reader(present, absent32), s, t) by {
        if present {
            assert(framed(i32_reader(), s, t));
        } else {
            assert(s.take(0) + t =~= t);
            assert(s.skip(0) =~= s);
        }
    }
    assert forall|s: Seq<u8>, t: Seq<u8>| #[trigger] framed(i64_if_reader(present, absent64), s, t) by {
        if present {
            assert(framed(i64_reader(), s, t));
        } else {
            assert(s.take(0) + t =~= t);
            assert(s.skip(0) =~= s);
        }
    }
    assert forall|s: Seq<u8>, t: Seq<u8>| #[trigger] framed(str_if_reader(present), s, t) by {
        if present {
            assert(framed(str_reader(), s, t));
        } else {
            assert(s.take(0) + t =~= t);
            assert(s.skip(0) =~= s);
        }
    }
}

/// Reading `n` items with a reader that frames consumes a prefix and nothing else.
pub proof fn lemma_read_many_framed<T>(item: spec_fn(Seq<u8>) -> Reading<T>, n: nat, s: Seq<u8>, t: Seq<u8>)
    requires
        frames(item),
    ensures
        read_many(item, n, s) matches Ok((items, rest)) ==> {
            let c = s.len() - rest.len();
            &&& 0 <= c <= s.len()
            &&& rest == s.skip(c)
            &&& read_many(item, n, s.take(c) + t) == Ok::<(Seq<T>, Seq<u8>), ErrorView>((items, t))
        },
    decreases n,
{
    if let Ok((items, rest)) = read_many(item, n, s) {
        let c = s.len() - rest.len();
        if n == 0 {
            assert(s.skip(0) =~= s);
            assert(s.take(0) + t =~= t);
        } else {
            let (first, s1) = item(s)->Ok_0;
            let b = s.len() - s1.len();
            assert(framed(item, s, Seq::<u8>::empty()));
            lemma_read_many_framed(item, (n - 1) as nat, s1, t);
            let m = s1.len() - rest.len();
            assert(s1.skip(m) =~= s.skip(c));
            assert(framed(item, s, s1.take(m) + t));
            assert(s.take(b) + (s1.take(m) + t) =~= s.take(c) + t);
        }
    }
}

/// A list of what a framing reader reads is read by a framing reader, counted or
/// optional.
pub proof fn lemma_list_readers_frame<T>(present: bool, item: spec_fn(Seq<u8>) -> Reading<T>)
    requires
        frames(item),
    ensures
        frames(list_reader(item)),
        frames(list_if_reader(present, item)),
{
    assert forall|s: Seq<u8>, t: Seq<u8>| #[trigger] framed(list_reader(item), s, t) by {
        lemma_read_list_framed(item, s, t);
    }
    assert forall|s: Seq<u8>, t: Seq<u8>| #[trigger] framed(list_if_reader(present, item), s, t) by {
        if present {
            lemma_read_list_framed(item, s, t);
        } else {
            assert(s.take(0) + t =~= t);
            assert(s.skip(0) =~= s);
        }
    }
}

/// A list read with a reader that frames consumes a prefix and nothing else.
pub proof fn lemma_read_list_framed<T>(item: spec_fn(Seq<u8>) -> Reading<T>, s: Seq<u8>, t: Seq<u8>)
    requires
        frames(item),
    ensures
        framed(list_reader(item), s, t),
{
    reveal(read_list);
    if let Ok((items, rest)) = read_list(item, s) {
        let count = read_i32(s)->Ok_0.0;
        let s1 = s.skip(4);
        let c = s.len() - rest.len();
        let u = s.take(c) + t;
        if count > 0 {
            lemma_read_many_framed(item, count as nat, s1, t);
            let m = s1.len() - rest.len();
            assert(s1.skip(m) =~= s.skip(c));
            assert(u[0] == s[0] && u[1] == s[1] && u[2] == s[2] && u[3] == s[3]);
            assert(u.skip(4) =~= s1.take(m) + t);
        } else {
            assert(u[0] == s[0] && u[1] == s[1] && u[2] == s[2] && u[3] == s[3]);
            assert(u.skip(4) =~= t);
        }
    }
}

/// A blob is consumed to the end that its length gives, whatever its inner reader
/// leaves unread, and the inner reader sees nothing of what follows the blob.
pub proof fn lemma_blob_reader_frames<T>(inner: spec_fn(Seq<u8>) -> Reading<T>)
    ensures
        frames(blob_reader(inner)),
{
    reveal(read_blob);
    assert forall|s: Seq<u8>, t: Seq<u8>| #[trigger] framed(blob_reader(inner), s, t) by {
        if let Ok((value, rest)) = read_blob(inner, s) {
            let len = read_i32(s)->Ok_0.0;
            let n = s.len() - rest.len();
            let u = s.take(n) + t;
            assert(u[0] == s[0] && u[1] == s[1] && u[2] == s[2] && u[3] == s[3]);
            assert(u.skip(4).take(len as int) =~= s.skip(4).take(len as int));
            assert(u.skip(4).skip(len as int) =~= t);
            assert(s.skip(4).skip(len as int) =~= s.skip(n));
        }
    }
}

} // verus!
