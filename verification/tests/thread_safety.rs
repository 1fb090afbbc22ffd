use konsumer_offsets::utils::is_thread_safe;
use konsumer_offsets::{
    ConsumerProtocolAssignment, ConsumerProtocolSubscription, GroupMetadata, KonsumerOffsetsData,
    KonsumerOffsetsError, MemberMetadata, OffsetCommit, TopicPartitions,
};

#[test]
fn errors_test_types_thread_safety() {
    is_thread_safe::<KonsumerOffsetsError>();
}

#[test]
fn group_metadata_test_types_thread_safety() {
    is_thread_safe::<GroupMetadata>();
    is_thread_safe::<MemberMetadata>();
    is_thread_safe::<ConsumerProtocolSubscription>();
    is_thread_safe::<TopicPartitions>();
    is_thread_safe::<ConsumerProtocolAssignment>();
}

#[test]
fn konsumer_offsets_data_test_types_thread_safety() {
    is_thread_safe::<KonsumerOffsetsData>();
}

#[test]
fn offset_commit_test_types_thread_safety() {
    is_thread_safe::<OffsetCommit>();
}
