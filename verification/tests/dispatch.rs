use konsumer_offsets::{GroupMetadata, KonsumerOffsetsData, KonsumerOffsetsError, OffsetCommit};

#[test]
fn missing_key_is_refused() {
    assert_eq!(KonsumerOffsetsData::try_from_bytes(None, None), Err(KonsumerOffsetsError::MessageKeyMissing));
}

#[test]
fn missing_key_is_refused_whatever_the_payload() {
    let payload: [u8; 4] = [0x00, 0x00, 0x00, 0x00];
    assert_eq!(
        KonsumerOffsetsData::try_from_bytes(None, Some(&payload)),
        Err(KonsumerOffsetsError::MessageKeyMissing)
    );
    assert_eq!(
        KonsumerOffsetsData::try_from_bytes_vec(None, Some(payload.to_vec())),
        Err(KonsumerOffsetsError::MessageKeyMissing)
    );
}

#[test]
fn message_version_99_is_unsupported() {
    let key: [u8; 6] = [0x00, 0x63, 0x00, 0x02, b'g', b'r'];
    assert_eq!(
        KonsumerOffsetsData::try_from_bytes(Some(&key), None),
        Err(KonsumerOffsetsError::UnsupportedMessageVersion(99))
    );
    let payload: [u8; 2] = [0x00, 0x00];
    assert_eq!(
        KonsumerOffsetsData::try_from_bytes(Some(&key), Some(&payload)),
        Err(KonsumerOffsetsError::UnsupportedMessageVersion(99))
    );
}

#[test]
fn message_version_3_is_unsupported() {
    let key: [u8; 2] = [0x00, 0x03];
    assert_eq!(
        KonsumerOffsetsData::try_from_bytes(Some(&key), None),
        Err(KonsumerOffsetsError::UnsupportedMessageVersion(3))
    );
}

#[test]
fn negative_message_version_is_unsupported() {
    let key: [u8; 2] = [0xFF, 0xFE];
    assert_eq!(
        KonsumerOffsetsData::try_from_bytes(Some(&key), None),
        Err(KonsumerOffsetsError::UnsupportedMessageVersion(-2))
    );
}

#[test]
fn empty_key_is_insufficient_data() {
    let key: [u8; 0] = [];
    assert_eq!(KonsumerOffsetsData::try_from_bytes(Some(&key), None), Err(KonsumerOffsetsError::InsufficientData));
}

#[test]
fn key_of_one_byte_is_insufficient_data() {
    let key: [u8; 1] = [0x00];
    assert_eq!(KonsumerOffsetsData::try_from_bytes(Some(&key), None), Err(KonsumerOffsetsError::InsufficientData));
}

#[test]
fn tags_0_and_1_are_offset_commits() {
    for tag in [0u8, 1u8] {
        let key: [u8; 10] = [0x00, tag, 0x00, 0x00, 0x00, 0x00, 0x00, 0x00, 0x00, 0x00];
        let expected = OffsetCommit { message_version: tag as i16, is_tombstone: true, ..OffsetCommit::default() };
        assert_eq!(
            KonsumerOffsetsData::try_from_bytes(Some(&key), None),
            Ok(KonsumerOffsetsData::OffsetCommit(expected))
        );
    }
}

#[test]
fn tag_2_is_group_metadata() {
    let key: [u8; 5] = [0x00, 0x02, 0x00, 0x01, b'g'];
    let expected = GroupMetadata {
        message_version: 2,
        group: String::from("g"),
        is_tombstone: true,
        ..GroupMetadata::default()
    };
    assert_eq!(
        KonsumerOffsetsData::try_from_bytes(Some(&key), None),
        Ok(KonsumerOffsetsData::GroupMetadata(expected))
    );
}

#[test]
fn owned_bytes_decode_as_borrowed_bytes_do() {
    let key: [u8; 12] = [0x00, 0x01, 0x00, 0x01, b'g', 0x00, 0x01, b't', 0x00, 0x00, 0x00, 0x07];
    let payload: [u8; 25] = [
        0x00, 0x03, 0x00, 0x00, 0x00, 0x00, 0x00, 0x00, 0x00, 0x07, 0x00, 0x00, 0x00, 0x09, 0x00, 0x01, b'x', 0x00,
        0x00, 0x00, 0x00, 0x00, 0x00, 0x00, 0x05,
    ];
    let borrowed = KonsumerOffsetsData::try_from_bytes(Some(&key), Some(&payload));
    let owned = KonsumerOffsetsData::try_from_bytes_vec(Some(key.to_vec()), Some(payload.to_vec()));
    assert_eq!(borrowed, owned);
    let expected = OffsetCommit {
        message_version: 1,
        group: String::from("g"),
        topic: String::from("t"),
        partition: 7,
        is_tombstone: false,
        schema_version: 3,
        offset: 7,
        leader_epoch: 9,
        metadata: String::from("x"),
        commit_timestamp: 5,
        expire_timestamp: -1,
    };
    assert_eq!(owned, Ok(KonsumerOffsetsData::OffsetCommit(expected)));

    let tombstone = KonsumerOffsetsData::try_from_bytes_vec(Some(key.to_vec()), None);
    assert_eq!(tombstone, KonsumerOffsetsData::try_from_bytes(Some(&key), None));
    assert!(matches!(tombstone, Ok(KonsumerOffsetsData::OffsetCommit(ref c)) if c.is_tombstone));
}

#[test]
fn bytes_after_the_key_fields_are_ignored() {
    let key: [u8; 8] = [0x00, 0x02, 0x00, 0x01, b'g', 0xAA, 0xBB, 0xCC];
    match KonsumerOffsetsData::try_from_bytes(Some(&key), None) {
        Ok(KonsumerOffsetsData::GroupMetadata(group)) => assert_eq!(group.group, "g"),
        other => panic!("not a group's metadata: {:?}", other),
    }
}
