//! Decoder for the records of Kafka's `__consumer_offsets` topic.
//!
//! The topic carries two kinds of record, told apart by the `i16` that the key of a
//! message starts with: offset commits ([`OffsetCommit`]) and group metadata
//! ([`GroupMetadata`]). [`KonsumerOffsetsData::try_from_bytes`] decodes either from the
//! key and the payload of a message.
//!
//! All integers are big-endian. A string is an `i16` length and that many bytes of
//! UTF-8 text; a byte array is an `i32` length and that many bytes.
//!
//! Each decoder is specified by a function on byte sequences, a reader, which says what
//! it returns and how many bytes it consumes: the primitives in [`wire`], the records
//! beside their types. [`framing`] shows that every reader consumes a prefix of its
//! input and looks at nothing beyond it. The decoders read from a byte cursor of the
//! `bytes_parser` crate; what is assumed of that cursor stands in [`cursor`].

pub mod cursor;
pub mod errors;
pub mod framing;
pub mod group_metadata;
pub mod konsumer_offsets_data;
pub mod offset_commit;
pub mod utils;
pub mod wire;

pub use errors::KonsumerOffsetsError;
pub use group_metadata::{
    ConsumerProtocolAssignment, ConsumerProtocolSubscription, GroupMetadata, MemberMetadata, TopicPartitions,
};
pub use konsumer_offsets_data::KonsumerOffsetsData;
pub use offset_commit::OffsetCommit;
