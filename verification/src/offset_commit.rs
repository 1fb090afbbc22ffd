//! Offset commits: how far a group has read a partition of a topic.

use crate::cursor::{parse_i16, parse_i32, parse_i64, reads_big_endian, unread};
use crate::errors::{ErrorView, KonsumerOffsetsError};
use crate::framing::{
    framed, frames, i16_reader, i32_if_reader, i64_if_reader, i64_reader, lemma_field, lemma_i16_reader_frames,
    lemma_i32_reader_frames, lemma_i64_reader_frames, lemma_optional_readers_frame, lemma_record_bounds,
    lemma_str_reader_frames,
};
use crate::utils::parse_str;
use crate::wire::{
    be_i16, be_i32, be_i64, decoded, filled, i32_reader, read_i16, read_i32, read_i32_if, read_i64, read_i64_if,
    read_str, str_reader, Reading,
};
use bytes_parser::BytesParser;
use vstd::prelude::*;
use vstd::utf8::{decode_utf8, decode_utf8_encode_utf8, encode_utf8, valid_utf8};

verus! {

/// The offset that a consumer group has reached in one partition of one topic.
///
/// The fields marked (key) come from the key of the message, those marked (payload)
/// from its payload. A message without payload is a tombstone: it asks for the removal
/// of its key, and its payload fields keep their default values.
#[derive(Debug, Clone, Eq, PartialEq)]
pub struct OffsetCommit {
    /// (key) The tag that the key starts with: `0` or `1` for an offset commit.
    pub message_version: i16,
    /// (key) The consumer group.
    pub group: String,
    /// (key) The topic.
    pub topic: String,
    /// (key) The partition of the topic.
    pub partition: i32,
    /// Whether the message had no payload.
    pub is_tombstone: bool,
    /// (payload) The schema version, which decides the fields that follow: `0..=3`.
    pub schema_version: i16,
    /// (payload) The offset that the group has reached.
    pub offset: i64,
    /// (payload) The leader epoch of the last consumed record; `-1` where the schema
    /// has none (before version 3).
    pub leader_epoch: i32,
    /// (payload) Metadata that the consumer attached, mostly empty.
    pub metadata: String,
    /// (payload) When the offset was committed, in milliseconds.
    pub commit_timestamp: i64,
    /// (payload) When the offset expires, in milliseconds; `-1` where the schema has
    /// none (all versions but 1).
    pub expire_timestamp: i64,
}

/// An [`OffsetCommit`] with its text as sequences of characters.
pub struct OffsetCommitView {
    pub message_version: i16,
    pub group: Seq<char>,
    pub topic: Seq<char>,
    pub partition: i32,
    pub is_tombstone: bool,
    pub schema_version: i16,
    pub offset: i64,
    pub leader_epoch: i32,
    pub metadata: Seq<char>,
    pub commit_timestamp: i64,
    pub expire_timestamp: i64,
}

impl View for OffsetCommit {
    type V = OffsetCommitView;

    open spec fn view(&self) -> OffsetCommitView {
        OffsetCommitView {
            message_version: self.message_version,
            group: self.group@,
            topic: self.topic@,
            partition: self.partition,
            is_tombstone: self.is_tombstone,
            schema_version: self.schema_version,
            offset: self.offset,
            leader_epoch: self.leader_epoch,
            metadata: self.metadata@,
            commit_timestamp: self.commit_timestamp,
            expire_timestamp: self.expire_timestamp,
        }
    }
}

impl DeepView for OffsetCommit {
    type V = OffsetCommitView;

    open spec fn deep_view(&self) -> OffsetCommitView {
        self@
    }
}

impl OffsetCommitView {
    /// The record in which every number is zero, every text empty and the tombstone
    /// mark unset.
    pub open spec fn empty() -> OffsetCommitView {
        OffsetCommitView {
            message_version: 0,
            group: Seq::empty(),
            topic: Seq::empty(),
            partition: 0,
            is_tombstone: false,
            schema_version: 0,
            offset: 0,
            leader_epoch: 0,
            metadata: Seq::empty(),
            commit_timestamp: 0,
            expire_timestamp: 0,
        }
    }

    /// The tombstone for a key: the key's fields, and defaults for the payload's.
    pub open spec fn tombstone(message_version: i16, group: Seq<char>, topic: Seq<char>, partition: i32) -> OffsetCommitView {
        OffsetCommitView {
            message_version,
            group,
            topic,
            partition,
            is_tombstone: true,
            ..OffsetCommitView::empty()
        }
    }
}

/// Whether a schema version of an offset commit's payload is one that can be decoded.
pub open spec fn offset_commit_schema_supported(version: i16) -> bool {
    0 <= version <= 3
}

/// Reads the key of an offset commit after its tag: group, topic and partition.
/// Yields the tombstone for that key.
pub open spec fn read_offset_commit_key(message_version: i16, s: Seq<u8>) -> Reading<OffsetCommitView> {
    match read_str(s) {
        Err(e) => Err(e),
        Ok((group, s1)) => match read_str(s1) {
            Err(e) => Err(e),
            Ok((topic, s2)) => match read_i32(s2) {
                Err(e) => Err(e),
                Ok((partition, s3)) => Ok(
                    (OffsetCommitView::tombstone(message_version, group, topic, partition), s3),
                ),
            },
        },
    }
}

/// Reads the payload of an offset commit into the record `key` that its key gave.
///
/// The fields come in this order: the schema version; the offset; the leader epoch,
/// from version 3 on; the metadata; the commit timestamp; the expire timestamp, in
/// version 1 only.
pub open spec fn read_offset_commit_payload(key: OffsetCommitView, s: Seq<u8>) -> Reading<OffsetCommitView> {
    match read_i16(s) {
        Err(e) => Err(e),
        Ok((version, s1)) => if !offset_commit_schema_supported(version) {
            Err(ErrorView::UnsupportedOffsetCommitSchema(version))
        } else {
            match read_i64(s1) {
                Err(e) => Err(e),
                Ok((offset, s2)) => match read_i32_if(version >= 3, -1i32, s2) {
                    Err(e) => Err(e),
                    Ok((leader_epoch, s3)) => match read_str(s3) {
                        Err(e) => Err(e),
                        Ok((metadata, s4)) => match read_i64(s4) {
                            Err(e) => Err(e),
                            Ok((commit_timestamp, s5)) => match read_i64_if(version == 1, -1i64, s5) {
                                Err(e) => Err(e),
                                Ok((expire_timestamp, s6)) => Ok(
                                    (
                                        OffsetCommitView {
                                            is_tombstone: false,
                                            schema_version: version,
                                            offset,
                                            leader_epoch,
                                            metadata,
                                            commit_timestamp,
                                            expire_timestamp,
                                            ..key
                                        },
                                        s6,
                                    ),
                                ),
                            },
                        },
                    },
                },
            }
        },
    }
}

impl Default for OffsetCommit {
    /// The record in which every number is zero, every text empty and the tombstone
    /// mark unset.
    fn default() -> (r: Self)
        ensures
            r@ == OffsetCommitView::empty(),
    {
        OffsetCommit {
            message_version: 0,
            group: String::new(),
            topic: String::new(),
            partition: 0,
            is_tombstone: false,
            schema_version: 0,
            offset: 0,
            leader_epoch: 0,
            metadata: String::new(),
            commit_timestamp: 0,
            expire_timestamp: 0,
        }
    }
}

impl OffsetCommit {
    /// Decodes the key of an offset commit, after its tag `message_version`, into the
    /// tombstone for that key.
    pub fn try_from(parser: &mut BytesParser, message_version: i16) -> (r: Result<Self, KonsumerOffsetsError>)
        requires
            reads_big_endian(*old(parser)),
        ensures
            reads_big_endian(*final(parser)),
            decoded(r, unread(*final(parser)), read_offset_commit_key(message_version, unread(*old(parser)))),
    {
        let group = parse_str(parser)?;
        let topic = parse_str(parser)?;
        let partition: i32 = parse_i32(parser)?;
        Ok(
            OffsetCommit {
                message_version,
                group,
                topic,
                partition,
                is_tombstone: true,
                schema_version: 0,
                offset: 0,
                leader_epoch: 0,
                metadata: String::new(),
                commit_timestamp: 0,
                expire_timestamp: 0,
            },
        )
    }

    /// Decodes the payload of an offset commit into this record, which stops being a
    /// tombstone. On failure the record is left as it was.
    pub fn parse_payload(&mut self, parser: &mut BytesParser) -> (r: Result<(), KonsumerOffsetsError>)
        requires
            reads_big_endian(*old(parser)),
        ensures
            reads_big_endian(*final(parser)),
            filled(
                r,
                *old(self),
                *final(self),
                unread(*final(parser)),
                read_offset_commit_payload(old(self)@, unread(*old(parser))),
            ),
    {
        let schema_version: i16 = parse_i16(parser)?;
        if schema_version < 0 || schema_version > 3 {
            return Err(KonsumerOffsetsError::UnsupportedOffsetCommitSchema(schema_version));
        }
        let offset: i64 = parse_i64(parser)?;
        let leader_epoch: i32 = if schema_version >= 3 {
            parse_i32(parser)?
        } else {
            -1
        };
        let metadata = parse_str(parser)?;
        let commit_timestamp: i64 = parse_i64(parser)?;
        let expire_timestamp: i64 = if schema_version == 1 {
            parse_i64(parser)?
        } else {
            -1
        };
        self.is_tombstone = false;
        self.schema_version = schema_version;
        self.offset = offset;
        self.leader_epoch = leader_epoch;
        self.metadata = metadata;
        self.commit_timestamp = commit_timestamp;
        self.expire_timestamp = expire_timestamp;
        Ok(())
    }
}

/// Where the length of the metadata stands in a payload of the given schema version:
/// after the version and the offset, and after the leader epoch where there is one.
pub open spec fn metadata_position(version: i16) -> int {
    if version >= 3 {
        14
    } else {
        10
    }
}

/// How many bytes of text a string with the length prefix `len` has.
pub open spec fn text_len(len: i16) -> int {
    if len < 0 {
        0
    } else {
        len as int
    }
}

/// How many bytes the payload of the record `c` takes: the fields that its schema
/// version has, with the metadata in UTF-8.
pub open spec fn offset_commit_payload_len(c: OffsetCommitView) -> int {
    2 + 8 + (if c.schema_version >= 3 {
        4int
    } else {
        0int
    }) + 2 + encode_utf8(c.metadata).len() + 8 + (if c.schema_version == 1 {
        8int
    } else {
        0int
    })
}

/// A key's tombstone keeps the key's fields, is marked as a tombstone, and has every
/// field of the payload at its default: zero, or the empty text.
pub proof fn lemma_tombstone_has_default_payload(message_version: i16, key: Seq<u8>)
    ensures
        read_offset_commit_key(message_version, key) matches Ok((c, rest)) ==> {
            &&& c.message_version == message_version
            &&& c.is_tombstone
            &&& c.schema_version == 0
            &&& c.offset == 0
            &&& c.leader_epoch == 0
            &&& c.metadata == Seq::<char>::empty()
            &&& c.commit_timestamp == 0
            &&& c.expire_timestamp == 0
        },
{
}

/// A decoded payload holds, field by field, what stands at the field's place in the
/// bytes `p`: the schema version first, which is one of 0 to 3; the offset after it;
/// the leader epoch after that from version 3 on, and `-1` before; then the metadata,
/// which is valid UTF-8, the commit timestamp and, in version 1 only, the expire
/// timestamp, which is `-1` in the other versions. The record stops being a tombstone and keeps the key's fields;
/// the bytes left are those after the last field.
pub proof fn lemma_payload_layout(key: OffsetCommitView, p: Seq<u8>)
    ensures
        read_offset_commit_payload(key, p) matches Ok((c, rest)) ==> {
            let v = be_i16(p);
            let m = metadata_position(v);
            let n = text_len(be_i16(p.skip(m)));
            &&& c.message_version == key.message_version
            &&& c.group == key.group
            &&& c.topic == key.topic
            &&& c.partition == key.partition
            &&& !c.is_tombstone
            &&& 0 <= v <= 3
            &&& c.schema_version == v
            &&& c.offset == be_i64(p.skip(2))
            &&& c.leader_epoch == (if v >= 3 {
                be_i32(p.skip(10))
            } else {
                -1i32
            })
            &&& c.metadata == (if be_i16(p.skip(m)) < 0 {
                Seq::<char>::empty()
            } else {
                decode_utf8(p.subrange(m + 2, m + 2 + n))
            })
            &&& be_i16(p.skip(m)) >= 0 ==> valid_utf8(p.subrange(m + 2, m + 2 + n))
            &&& c.commit_timestamp == be_i64(p.skip(m + 2 + n))
            &&& c.expire_timestamp == (if v == 1 {
                be_i64(p.skip(m + 10 + n))
            } else {
                -1i64
            })
            &&& m + 10 + n + (if v == 1 {
                8int
            } else {
                0int
            }) <= p.len()
            &&& rest == p.skip(
                m + 10 + n + (if v == 1 {
                    8int
                } else {
                    0int
                }),
            )
        },
{
    reveal(read_str);
    if let Ok((c, rest)) = read_offset_commit_payload(key, p) {
        let v = be_i16(p);
        let m = metadata_position(v);
        let len = be_i16(p.skip(m));
        let n = text_len(len);
        let s1 = p.skip(2);
        let s2 = s1.skip(8);
        assert(s2 =~= p.skip(10));
        let s3 = read_i32_if(v >= 3, -1i32, s2)->Ok_0.1;
        assert(s3 =~= p.skip(m));
        let s4 = read_str(s3)->Ok_0.1;
        assert(s3.skip(2) =~= p.skip(m + 2));
        assert(s4 =~= p.skip(m + 2 + n));
        if len >= 0 {
            assert(s3.skip(2).take(n) =~= p.subrange(m + 2, m + 2 + n));
        }
        let s5 = s4.skip(8);
        assert(s5 =~= p.skip(m + 10 + n));
        if v == 1 {
            assert(s5.skip(8) =~= p.skip(m + 18 + n));
        }
    }
}

/// A payload whose schema version is outside 0 to 3 is refused with that version,
/// whatever follows it.
pub proof fn lemma_payload_schema_unsupported(key: OffsetCommitView, p: Seq<u8>)
    requires
        p.len() >= 2,
        !(0 <= be_i16(p) <= 3),
    ensures
        read_offset_commit_payload(key, p) == Err::<(OffsetCommitView, Seq<u8>), ErrorView>(
            ErrorView::UnsupportedOffsetCommitSchema(be_i16(p)),
        ),
{
}

/// In schema version 3 the leader epoch is the `i32` that follows the offset in the
/// payload: it is read, not defaulted.
pub proof fn lemma_leader_epoch_is_read_in_version_3(key: OffsetCommitView, p: Seq<u8>)
    ensures
        read_offset_commit_payload(key, p) matches Ok((c, rest)) ==> (c.schema_version == 3 ==> c.leader_epoch
            == be_i32(p.skip(10))) && (c.schema_version < 3 ==> c.leader_epoch == -1),
{
    lemma_payload_layout(key, p);
}

/// In schema version 1 the expire timestamp is the `i64` that follows the commit
/// timestamp in the payload; in every other version it is exactly `-1`.
pub proof fn lemma_expire_timestamp_is_read_in_version_1_only(key: OffsetCommitView, p: Seq<u8>)
    ensures
        read_offset_commit_payload(key, p) matches Ok((c, rest)) ==> (c.schema_version == 1
            ==> c.expire_timestamp == be_i64(p.skip(20 + text_len(be_i16(p.skip(10)))))) && (c.schema_version
            != 1 ==> c.expire_timestamp == -1),
{
    lemma_payload_layout(key, p);
}

/// Decoding a payload consumes exactly the bytes of its fields, no fewer and no more:
/// what is left of `p` is `p` without as many bytes as the decoded record takes.
pub proof fn lemma_payload_consumed(key: OffsetCommitView, p: Seq<u8>)
    ensures
        read_offset_commit_payload(key, p) matches Ok((c, rest)) ==> offset_commit_payload_len(c) <= p.len()
            && rest == p.skip(offset_commit_payload_len(c)) && p.len() - rest.len()
            == offset_commit_payload_len(c),
{
    lemma_payload_layout(key, p);
    if let Ok((c, rest)) = read_offset_commit_payload(key, p) {
        let v = be_i16(p);
        let m = metadata_position(v);
        let len = be_i16(p.skip(m));
        let n = text_len(len);
        if len >= 0 {
            decode_utf8_encode_utf8(p.subrange(m + 2, m + 2 + n));
        } else {
            assert(encode_utf8(Seq::<char>::empty()) =~= Seq::<u8>::empty());
        }
    }
}

/// The reader of an offset commit's key after the tag `message_version`.
pub open spec fn offset_commit_key_reader(message_version: i16) -> spec_fn(Seq<u8>) -> Reading<OffsetCommitView> {
    |s: Seq<u8>| read_offset_commit_key(message_version, s)
}

/// The reader of an offset commit's payload into the record `key`.
pub open spec fn offset_commit_payload_reader(key: OffsetCommitView) -> spec_fn(Seq<u8>) -> Reading<
    OffsetCommitView,
> {
    |s: Seq<u8>| read_offset_commit_payload(key, s)
}

/// Decoding the key of an offset commit consumes the bytes of its three fields and
/// depends on no byte after them.
pub proof fn lemma_offset_commit_key_frames(message_version: i16)
    ensures
        frames(offset_commit_key_reader(message_version)),
{
    lemma_str_reader_frames();
    lemma_i32_reader_frames();
    assert forall|s: Seq<u8>, t: Seq<u8>| #[trigger]
        framed(offset_commit_key_reader(message_version), s, t) by {
        if let Ok((record, rest)) = read_offset_commit_key(message_version, s) {
            let c = s.len() - rest.len();
            assert(s.skip(0) =~= s);
            lemma_field(str_reader(), s, 0, c, t);
            let s1 = read_str(s)->Ok_0.1;
            lemma_field(str_reader(), s, s.len() - s1.len(), c, t);
            let s2 = read_str(s1)->Ok_0.1;
            lemma_field(i32_reader(), s, s.len() - s2.len(), c, t);
            lemma_record_bounds(s, c, t);
        }
    }
}

/// One payload, and one sequence of bytes in place of what follows it.
proof fn lemma_offset_commit_payload_framed(key: OffsetCommitView, s: Seq<u8>, t: Seq<u8>)
    requires
        read_offset_commit_payload(key, s) is Ok,
    ensures
        framed(offset_commit_payload_reader(key), s, t),
{
    let (record, rest) = read_offset_commit_payload(key, s)->Ok_0;
    let c = s.len() - rest.len();
    let version = record.schema_version;
    lemma_i16_reader_frames();
    lemma_i64_reader_frames();
    lemma_str_reader_frames();
    lemma_optional_readers_frame(version >= 3, -1i32, -1i64);
    lemma_optional_readers_frame(version == 1, -1i32, -1i64);
    assert(s.skip(0) =~= s);
    let s1 = read_i16(s)->Ok_0.1;
    let s2 = read_i64(s1)->Ok_0.1;
    let s3 = read_i32_if(version >= 3, -1i32, s2)->Ok_0.1;
    let s4 = read_str(s3)->Ok_0.1;
    let s5 = read_i64(s4)->Ok_0.1;
    let s6 = read_i64_if(version == 1, -1i64, s5)->Ok_0.1;
    assert(s6 == rest);
    let b1 = s.len() - s1.len();
    let b2 = s.len() - s2.len();
    let b3 = s.len() - s3.len();
    let b4 = s.len() - s4.len();
    let b5 = s.len() - s5.len();
    lemma_field(i16_reader(), s, 0, c, t);
    lemma_field(i64_reader(), s, b1, c, t);
    lemma_field(i32_if_reader(version >= 3, -1i32), s, b2, c, t);
    lemma_field(str_reader(), s, b3, c, t);
    lemma_field(i64_reader(), s, b4, c, t);
    lemma_field(i64_if_reader(version == 1, -1i64), s, b5, c, t);
    assert(0 <= b1 <= b2 <= b3 <= b4 <= b5 <= c <= s.len());
    lemma_record_bounds(s, c, t);
    let u = s.take(c) + t;
    assert(read_i16(u) == Ok::<(i16, Seq<u8>), ErrorView>((version, s.subrange(b1, c) + t)));
    assert(read_i64(s.subrange(b1, c) + t) == Ok::<(i64, Seq<u8>), ErrorView>(
        (record.offset, s.subrange(b2, c) + t),
    ));
    assert(read_i32_if(version >= 3, -1i32, s.subrange(b2, c) + t) == Ok::<(i32, Seq<u8>), ErrorView>(
        (record.leader_epoch, s.subrange(b3, c) + t),
    ));
    assert(read_str(s.subrange(b3, c) + t) == Ok::<(Seq<char>, Seq<u8>), ErrorView>(
        (record.metadata, s.subrange(b4, c) + t),
    ));
    assert(read_i64(s.subrange(b4, c) + t) == Ok::<(i64, Seq<u8>), ErrorView>(
        (record.commit_timestamp, s.subrange(b5, c) + t),
    ));
    assert(read_i64_if(version == 1, -1i64, s.subrange(b5, c) + t) == Ok::<(i64, Seq<u8>), ErrorView>(
        (record.expire_timestamp, t),
    ));
    assert(read_offset_commit_payload(key, u) == Ok::<(OffsetCommitView, Seq<u8>), ErrorView>((record, t)));
}

/// Decoding the payload of an offset commit consumes exactly the bytes of the fields
/// that its schema version has. What is left is the input without those bytes; and
/// the same bytes, followed by anything else, give the same record and leave what
/// follows: nothing beyond the last field is read.
pub proof fn lemma_offset_commit_payload_frames(key: OffsetCommitView)
    ensures
        frames(offset_commit_payload_reader(key)),
{
    assert forall|s: Seq<u8>, t: Seq<u8>| #[trigger] framed(offset_commit_payload_reader(key), s, t) by {
        if read_offset_commit_payload(key, s) is Ok {
            lemma_offset_commit_payload_framed(key, s, t);
        }
    }
}

} // verus!
