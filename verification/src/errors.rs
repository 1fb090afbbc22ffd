//! The ways in which decoding a record can fail.

use vstd::prelude::*;

verus! {

/// Why a record could not be decoded.
///
/// The first failure met ends the decoding: no partial record is ever returned.
#[derive(Debug, Eq, PartialEq)]
pub enum KonsumerOffsetsError {
    /// The message has no key, and the key alone says which kind of record it is.
    MessageKeyMissing,
    /// Fewer bytes were left than the next field needs.
    InsufficientData,
    /// A span of bytes announced as text is not valid UTF-8.
    MalformedText,
    /// The tag at the start of the key names no known kind of record.
    UnsupportedMessageVersion(i16),
    /// The payload of an offset commit has a schema version outside `0..=3`.
    UnsupportedOffsetCommitSchema(i16),
    /// The payload of a group's metadata has a schema version outside `0..=3`.
    UnsupportedGroupMetadataSchema(i16),
    /// A member's subscription has a version outside `0..=3`.
    UnsupportedConsumerProtocolSubscriptionVersion(i16),
    /// A member's assignment has a version outside `0..=3`.
    UnsupportedConsumerProtocolAssignmentVersion(i16),
    /// A structure (first field) cannot be decoded at the given version (second field)
    /// of the structure that holds it (third field).
    UnableToParseForVersion(String, i16, String),
}

/// What a [`KonsumerOffsetsError`] says, with text as sequences of characters.
pub enum ErrorView {
    MessageKeyMissing,
    InsufficientData,
    MalformedText,
    UnsupportedMessageVersion(i16),
    UnsupportedOffsetCommitSchema(i16),
    UnsupportedGroupMetadataSchema(i16),
    UnsupportedConsumerProtocolSubscriptionVersion(i16),
    UnsupportedConsumerProtocolAssignmentVersion(i16),
    UnableToParseForVersion(Seq<char>, i16, Seq<char>),
}

impl View for KonsumerOffsetsError {
    type V = ErrorView;

    open spec fn view(&self) -> ErrorView {
        match self {
            KonsumerOffsetsError::MessageKeyMissing => ErrorView::MessageKeyMissing,
            KonsumerOffsetsError::InsufficientData => ErrorView::InsufficientData,
            KonsumerOffsetsError::MalformedText => ErrorView::MalformedText,
            KonsumerOffsetsError::UnsupportedMessageVersion(v) => ErrorView::UnsupportedMessageVersion(*v),
            KonsumerOffsetsError::UnsupportedOffsetCommitSchema(v) => ErrorView::UnsupportedOffsetCommitSchema(*v),
            KonsumerOffsetsError::UnsupportedGroupMetadataSchema(v) => ErrorView::UnsupportedGroupMetadataSchema(*v),
            KonsumerOffsetsError::UnsupportedConsumerProtocolSubscriptionVersion(v) =>
                ErrorView::UnsupportedConsumerProtocolSubscriptionVersion(*v),
            KonsumerOffsetsError::UnsupportedConsumerProtocolAssignmentVersion(v) =>
                ErrorView::UnsupportedConsumerProtocolAssignmentVersion(*v),
            KonsumerOffsetsError::UnableToParseForVersion(what, v, parent) =>
                ErrorView::UnableToParseForVersion(what@, *v, parent@),
        }
    }
}

} // verus!
