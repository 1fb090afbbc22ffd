//! The entry point: from the key and the payload of a message to the record it holds.

use crate::cursor::{parse_i16, parser_over};
use crate::errors::{ErrorView, KonsumerOffsetsError};
use crate::group_metadata::{
    lemma_group_payload_header, read_group_metadata_key, read_group_metadata_payload, GroupMetadata,
    GroupMetadataView, MemberMetadataView,
};
use crate::offset_commit::{
    lemma_payload_layout, read_offset_commit_key, read_offset_commit_payload, OffsetCommit, OffsetCommitView,
};
use crate::wire::{be_i16, read_i16};
use vstd::prelude::*;

verus! {

/// The tag of an offset commit's key, in its first form.
pub const MSG_V0_OFFSET_COMMIT: i16 = 0;

/// The tag of an offset commit's key, in its second form.
pub const MSG_V1_OFFSET_COMMIT: i16 = 1;

/// The tag of a group metadata's key.
pub const MSG_V2_GROUP_METADATA: i16 = 2;

/// A record of the `__consumer_offsets` topic: one of the two kinds that it carries.
#[derive(Debug, Clone, Eq, PartialEq)]
pub enum KonsumerOffsetsData {
    /// The offset that a group has reached in a partition.
    OffsetCommit(OffsetCommit),
    /// The state of a group.
    GroupMetadata(GroupMetadata),
}

/// A [`KonsumerOffsetsData`] with the record it holds as a view.
pub enum KonsumerOffsetsDataView {
    OffsetCommit(OffsetCommitView),
    GroupMetadata(GroupMetadataView),
}

impl View for KonsumerOffsetsData {
    type V = KonsumerOffsetsDataView;

    open spec fn view(&self) -> KonsumerOffsetsDataView {
        match self {
            KonsumerOffsetsData::OffsetCommit(record) => KonsumerOffsetsDataView::OffsetCommit(record@),
            KonsumerOffsetsData::GroupMetadata(record) => KonsumerOffsetsDataView::GroupMetadata(record@),
        }
    }
}

/// What decoding a message yields: the record, or the failure.
pub type Decoding = Result<KonsumerOffsetsDataView, ErrorView>;

/// The offset commit that a key, after its tag, and a payload hold. Without payload it
/// is the key's tombstone. What follows the last field of either is ignored.
pub open spec fn decode_offset_commit(tag: i16, key: Seq<u8>, payload: Option<Seq<u8>>) -> Decoding {
    match read_offset_commit_key(tag, key) {
        Err(e) => Err(e),
        Ok((tombstone, _)) => match payload {
            None => Ok(KonsumerOffsetsDataView::OffsetCommit(tombstone)),
            Some(bytes) => match read_offset_commit_payload(tombstone, bytes) {
                Err(e) => Err(e),
                Ok((record, _)) => Ok(KonsumerOffsetsDataView::OffsetCommit(record)),
            },
        },
    }
}

/// The group metadata that a key, after its tag, and a payload hold. Without payload
/// it is the key's tombstone. What follows the last field of either is ignored.
pub open spec fn decode_group_metadata(tag: i16, key: Seq<u8>, payload: Option<Seq<u8>>) -> Decoding {
    match read_group_metadata_key(tag, key) {
        Err(e) => Err(e),
        Ok((tombstone, _)) => match payload {
            None => Ok(KonsumerOffsetsDataView::GroupMetadata(tombstone)),
            Some(bytes) => match read_group_metadata_payload(tombstone, bytes) {
                Err(e) => Err(e),
                Ok((record, _)) => Ok(KonsumerOffsetsDataView::GroupMetadata(record)),
            },
        },
    }
}

/// The record that a message holds.
///
/// A message without key holds none. The `i16` that the key starts with says what the
/// rest holds: `0` or `1` an offset commit, `2` a group's metadata, and anything else
/// is not supported.
pub open spec fn decode_record(key: Option<Seq<u8>>, payload: Option<Seq<u8>>) -> Decoding {
    match key {
        None => Err(ErrorView::MessageKeyMissing),
        Some(bytes) => match read_i16(bytes) {
            Err(e) => Err(e),
            Ok((tag, rest)) => if tag == MSG_V0_OFFSET_COMMIT || tag == MSG_V1_OFFSET_COMMIT {
                decode_offset_commit(tag, rest, payload)
            } else if tag == MSG_V2_GROUP_METADATA {
                decode_group_metadata(tag, rest, payload)
            } else {
                Err(ErrorView::UnsupportedMessageVersion(tag))
            },
        },
    }
}

/// The bytes of an optional slice.
pub open spec fn slice_bytes(bytes: Option<&[u8]>) -> Option<Seq<u8>> {
    match bytes {
        None => None,
        Some(slice) => Some(slice@),
    }
}

/// The bytes of an optional vector.
pub open spec fn vec_bytes(bytes: Option<Vec<u8>>) -> Option<Seq<u8>> {
    match bytes {
        None => None,
        Some(vec) => Some(vec@),
    }
}

/// Whether `r` is what `expected` says: the same record, or the same failure.
pub open spec fn is_decoding(r: Result<KonsumerOffsetsData, KonsumerOffsetsError>, expected: Decoding) -> bool {
    match expected {
        Ok(record) => r is Ok && r->Ok_0@ == record,
        Err(e) => r is Err && r->Err_0@ == e,
    }
}

impl KonsumerOffsetsData {
    /// Decodes a message of the `__consumer_offsets` topic from its key and payload.
    ///
    /// A message without key cannot be decoded. A message without payload is a
    /// tombstone. The first failure ends the decoding.
    pub fn try_from_bytes(key: Option<&[u8]>, payload: Option<&[u8]>) -> (r: Result<
        KonsumerOffsetsData,
        KonsumerOffsetsError,
    >)
        ensures
            is_decoding(r, decode_record(slice_bytes(key), slice_bytes(payload))),
    {
        match key {
            None => Err(KonsumerOffsetsError::MessageKeyMissing),
            Some(key_bytes) => {
                let mut key_parser = parser_over(key_bytes);
                let message_version: i16 = parse_i16(&mut key_parser)?;
                if message_version == MSG_V0_OFFSET_COMMIT || message_version == MSG_V1_OFFSET_COMMIT {
                    let mut offset_commit = OffsetCommit::try_from(&mut key_parser, message_version)?;
                    if let Some(payload_bytes) = payload {
                        let mut payload_parser = parser_over(payload_bytes);
                        offset_commit.parse_payload(&mut payload_parser)?;
                    }
                    Ok(KonsumerOffsetsData::OffsetCommit(offset_commit))
                } else if message_version == MSG_V2_GROUP_METADATA {
                    let mut group_metadata = GroupMetadata::try_from(&mut key_parser, message_version)?;
                    if let Some(payload_bytes) = payload {
                        let mut payload_parser = parser_over(payload_bytes);
                        group_metadata.parse_payload(&mut payload_parser)?;
                    }
                    Ok(KonsumerOffsetsData::GroupMetadata(group_metadata))
                } else {
                    Err(KonsumerOffsetsError::UnsupportedMessageVersion(message_version))
                }
            },
        }
    }

    /// Decodes a message as [`Self::try_from_bytes`] does, from owned bytes.
    pub fn try_from_bytes_vec(key: Option<Vec<u8>>, payload: Option<Vec<u8>>) -> (r: Result<
        KonsumerOffsetsData,
        KonsumerOffsetsError,
    >)
        ensures
            is_decoding(r, decode_record(vec_bytes(key), vec_bytes(payload))),
    {
        let key_bytes: Option<&[u8]> = match &key {
            Some(bytes) => Some(bytes.as_slice()),
            None => None,
        };
        let payload_bytes: Option<&[u8]> = match &payload {
            Some(bytes) => Some(bytes.as_slice()),
            None => None,
        };
        Self::try_from_bytes(key_bytes, payload_bytes)
    }
}

/// A message without key cannot be decoded, whatever its payload.
pub proof fn lemma_missing_key(payload: Option<Seq<u8>>)
    ensures
        decode_record(None, payload) == Err::<KonsumerOffsetsDataView, ErrorView>(ErrorView::MessageKeyMissing),
{
}

/// A key too short to hold its tag fails for want of bytes.
pub proof fn lemma_key_without_tag(key: Seq<u8>, payload: Option<Seq<u8>>)
    requires
        key.len() < 2,
    ensures
        decode_record(Some(key), payload) == Err::<KonsumerOffsetsDataView, ErrorView>(
            ErrorView::InsufficientData,
        ),
{
}

/// A key whose tag is none of 0, 1 and 2 is refused with that tag, whatever follows
/// the tag and whatever the payload: no record comes of it.
pub proof fn lemma_unsupported_message_version(key: Seq<u8>, payload: Option<Seq<u8>>)
    requires
        key.len() >= 2,
        be_i16(key) != 0,
        be_i16(key) != 1,
        be_i16(key) != 2,
    ensures
        decode_record(Some(key), payload) == Err::<KonsumerOffsetsDataView, ErrorView>(
            ErrorView::UnsupportedMessageVersion(be_i16(key)),
        ),
{
}

/// The tag decides the kind of record: an offset commit comes of the tags 0 and 1
/// only, a group's metadata of the tag 2 only, and the record holds the tag.
pub proof fn lemma_tag_decides_the_kind(key: Seq<u8>, payload: Option<Seq<u8>>)
    ensures
        decode_record(Some(key), payload) matches Ok(record) ==> key.len() >= 2 && match record {
            KonsumerOffsetsDataView::OffsetCommit(c) => (be_i16(key) == 0 || be_i16(key) == 1)
                && c.message_version == be_i16(key),
            KonsumerOffsetsDataView::GroupMetadata(g) => be_i16(key) == 2 && g.message_version == 2,
        },
{
    if key.len() >= 2 {
        let tag = be_i16(key);
        let rest = key.skip(2);
        if tag == 0 || tag == 1 {
            if let Ok((tombstone, _)) = read_offset_commit_key(tag, rest) {
                if let Some(bytes) = payload {
                    lemma_payload_layout(tombstone, bytes);
                }
            }
        } else if tag == 2 {
            if let Ok((tombstone, _)) = read_group_metadata_key(tag, rest) {
                if let Some(bytes) = payload {
                    lemma_group_payload_header(tombstone, bytes);
                }
            }
        }
    }
}

/// A message without payload decodes to a tombstone: the key's fields, the tombstone
/// mark, and every field of the payload at its default.
pub proof fn lemma_without_payload_is_tombstone(key: Seq<u8>)
    ensures
        decode_record(Some(key), None) matches Ok(record) ==> match record {
            KonsumerOffsetsDataView::OffsetCommit(c) => {
                &&& c.is_tombstone
                &&& c.schema_version == 0
                &&& c.offset == 0
                &&& c.leader_epoch == 0
                &&& c.metadata == Seq::<char>::empty()
                &&& c.commit_timestamp == 0
                &&& c.expire_timestamp == 0
            },
            KonsumerOffsetsDataView::GroupMetadata(g) => {
                &&& g.is_tombstone
                &&& g.schema_version == 0
                &&& g.protocol_type == Seq::<char>::empty()
                &&& g.generation == 0
                &&& g.protocol == Seq::<char>::empty()
                &&& g.leader == Seq::<char>::empty()
                &&& g.current_state_timestamp == 0
                &&& g.members == Seq::<MemberMetadataView>::empty()
            },
        },
{
}

/// A message with a payload never decodes to a tombstone, and the record has the
/// key's fields and what the payload's reader yields for that key.
pub proof fn lemma_with_payload_is_no_tombstone(key: Seq<u8>, payload: Seq<u8>)
    ensures
        decode_record(Some(key), Some(payload)) matches Ok(record) ==> key.len() >= 2 && match record {
            KonsumerOffsetsDataView::OffsetCommit(c) => {
                &&& !c.is_tombstone
                &&& read_offset_commit_key(be_i16(key), key.skip(2)) matches Ok((tombstone, _))
                &&& read_offset_commit_payload(tombstone, payload) matches Ok((filled, _))
                &&& c == filled
                &&& c.group == tombstone.group
                &&& c.topic == tombstone.topic
                &&& c.partition == tombstone.partition
            },
            KonsumerOffsetsDataView::GroupMetadata(g) => {
                &&& !g.is_tombstone
                &&& read_group_metadata_key(be_i16(key), key.skip(2)) matches Ok((tombstone, _))
                &&& read_group_metadata_payload(tombstone, payload) matches Ok((filled, _))
                &&& g == filled
                &&& g.group == tombstone.group
            },
        },
{
    if key.len() >= 2 {
        let tag = be_i16(key);
        let rest = key.skip(2);
        if tag == 0 || tag == 1 {
            if let Ok((tombstone, _)) = read_offset_commit_key(tag, rest) {
                lemma_payload_layout(tombstone, payload);
            }
        } else if tag == 2 {
            if let Ok((tombstone, _)) = read_group_metadata_key(tag, rest) {
                lemma_group_payload_header(tombstone, payload);
            }
        }
    }
}

} // verus!
