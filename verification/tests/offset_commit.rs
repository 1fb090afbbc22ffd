use bytes_parser::BytesParser;
use konsumer_offsets::{KonsumerOffsetsData, KonsumerOffsetsError, OffsetCommit};

/// Tag 1, group "group", topic "topic", partition 3.
const COMMIT_KEY: [u8; 20] = [
    0x00, 0x01, // tag
    0x00, 0x05, b'g', b'r', b'o', b'u', b'p', // group
    0x00, 0x05, b't', b'o', b'p', b'i', b'c', // topic
    0x00, 0x00, 0x00, 0x03, // partition
];

/// Schema version 0: offset 42, metadata "", commit timestamp 1000.
const COMMIT_PAYLOAD_V0: [u8; 20] = [
    0x00, 0x00, // schema version
    0x00, 0x00, 0x00, 0x00, 0x00, 0x00, 0x00, 0x2A, // offset
    0x00, 0x00, // metadata
    0x00, 0x00, 0x00, 0x00, 0x00, 0x00, 0x03, 0xE8, // commit timestamp
];

/// Schema version 1: offset 42, metadata "md", commit timestamp 1000, expire
/// timestamp 2000.
const COMMIT_PAYLOAD_V1: [u8; 30] = [
    0x00, 0x01, // schema version
    0x00, 0x00, 0x00, 0x00, 0x00, 0x00, 0x00, 0x2A, // offset
    0x00, 0x02, b'm', b'd', // metadata
    0x00, 0x00, 0x00, 0x00, 0x00, 0x00, 0x03, 0xE8, // commit timestamp
    0x00, 0x00, 0x00, 0x00, 0x00, 0x00, 0x07, 0xD0, // expire timestamp
];

/// Schema version 2: offset 4294967296, metadata "", commit timestamp
/// 1600000000000.
const COMMIT_PAYLOAD_V2: [u8; 20] = [
    0x00, 0x02, // schema version
    0x00, 0x00, 0x00, 0x01, 0x00, 0x00, 0x00, 0x00, // offset
    0x00, 0x00, // metadata
    0x00, 0x00, 0x01, 0x74, 0x87, 0x6E, 0x80, 0x00, // commit timestamp
];

/// Schema version 3: offset 7, leader epoch 9, metadata "x", commit timestamp 5.
const COMMIT_PAYLOAD_V3: [u8; 25] = [
    0x00, 0x03, // schema version
    0x00, 0x00, 0x00, 0x00, 0x00, 0x00, 0x00, 0x07, // offset
    0x00, 0x00, 0x00, 0x09, // leader epoch
    0x00, 0x01, b'x', // metadata
    0x00, 0x00, 0x00, 0x00, 0x00, 0x00, 0x00, 0x05, // commit timestamp
];

fn commit_of(key: &[u8], payload: Option<&[u8]>) -> OffsetCommit {
    match KonsumerOffsetsData::try_from_bytes(Some(key), payload) {
        Ok(KonsumerOffsetsData::OffsetCommit(commit)) => commit,
        other => panic!("not an offset commit: {:?}", other),
    }
}

fn commit_tombstone() -> OffsetCommit {
    OffsetCommit {
        message_version: 1,
        group: String::from("group"),
        topic: String::from("topic"),
        partition: 3,
        is_tombstone: true,
        schema_version: 0,
        offset: 0,
        leader_epoch: 0,
        metadata: String::new(),
        commit_timestamp: 0,
        expire_timestamp: 0,
    }
}

#[test]
fn commit_default_is_all_zero_and_empty() {
    let commit = OffsetCommit::default();
    assert_eq!(
        commit,
        OffsetCommit {
            message_version: 0,
            group: String::new(),
            topic: String::new(),
            partition: 0,
            is_tombstone: false,
            schema_version: 0,
            offset: 0,
            leader_epoch: 0,
            metadata: String::new(),
            commit_timestamp: 0,
            expire_timestamp: 0,
        }
    );
}

#[test]
fn commit_without_payload_is_a_tombstone_with_defaults() {
    assert_eq!(commit_of(&COMMIT_KEY, None), commit_tombstone());
}

#[test]
fn commit_key_with_tag_zero() {
    let mut key = COMMIT_KEY;
    key[1] = 0x00;
    let commit = commit_of(&key, None);
    assert_eq!(commit.message_version, 0);
    assert_eq!(commit.group, "group");
    assert_eq!(commit.topic, "topic");
    assert_eq!(commit.partition, 3);
    assert!(commit.is_tombstone);
}

#[test]
fn commit_fixture_schema_version_0() {
    let expected = OffsetCommit {
        is_tombstone: false,
        schema_version: 0,
        offset: 42,
        leader_epoch: -1,
        metadata: String::new(),
        commit_timestamp: 1000,
        expire_timestamp: -1,
        ..commit_tombstone()
    };
    assert_eq!(commit_of(&COMMIT_KEY, Some(&COMMIT_PAYLOAD_V0)), expected);
}

#[test]
fn commit_fixture_schema_version_1() {
    let expected = OffsetCommit {
        is_tombstone: false,
        schema_version: 1,
        offset: 42,
        leader_epoch: -1,
        metadata: String::from("md"),
        commit_timestamp: 1000,
        expire_timestamp: 2000,
        ..commit_tombstone()
    };
    assert_eq!(commit_of(&COMMIT_KEY, Some(&COMMIT_PAYLOAD_V1)), expected);
}

#[test]
fn commit_fixture_schema_version_2() {
    let expected = OffsetCommit {
        is_tombstone: false,
        schema_version: 2,
        offset: 4294967296,
        leader_epoch: -1,
        metadata: String::new(),
        commit_timestamp: 1600000000000,
        expire_timestamp: -1,
        ..commit_tombstone()
    };
    assert_eq!(commit_of(&COMMIT_KEY, Some(&COMMIT_PAYLOAD_V2)), expected);
}

#[test]
fn commit_fixture_schema_version_3() {
    let expected = OffsetCommit {
        is_tombstone: false,
        schema_version: 3,
        offset: 7,
        leader_epoch: 9,
        metadata: String::from("x"),
        commit_timestamp: 5,
        expire_timestamp: -1,
        ..commit_tombstone()
    };
    assert_eq!(commit_of(&COMMIT_KEY, Some(&COMMIT_PAYLOAD_V3)), expected);
}

#[test]
fn commit_fixture_negative_metadata_length() {
    let mut payload = COMMIT_PAYLOAD_V0;
    payload[10] = 0xFF;
    payload[11] = 0xFF;
    let commit = commit_of(&COMMIT_KEY, Some(&payload));
    assert_eq!(commit.metadata, "");
    assert_eq!(commit.commit_timestamp, 1000);
    assert_eq!(commit.expire_timestamp, -1);
}

#[test]
fn commit_leader_epoch_is_read_in_version_3() {
    let mut payload = COMMIT_PAYLOAD_V3;
    payload[10] = 0xFF;
    payload[11] = 0xFF;
    payload[12] = 0xFF;
    payload[13] = 0xFE;
    assert_eq!(commit_of(&COMMIT_KEY, Some(&payload)).leader_epoch, -2);
    assert_eq!(commit_of(&COMMIT_KEY, Some(&COMMIT_PAYLOAD_V0)).leader_epoch, -1);
    assert_eq!(commit_of(&COMMIT_KEY, Some(&COMMIT_PAYLOAD_V1)).leader_epoch, -1);
    assert_eq!(commit_of(&COMMIT_KEY, Some(&COMMIT_PAYLOAD_V2)).leader_epoch, -1);
}

#[test]
fn commit_expire_timestamp_is_read_in_version_1_only() {
    assert_eq!(commit_of(&COMMIT_KEY, Some(&COMMIT_PAYLOAD_V1)).expire_timestamp, 2000);
    assert_eq!(commit_of(&COMMIT_KEY, Some(&COMMIT_PAYLOAD_V0)).expire_timestamp, -1);
    assert_eq!(commit_of(&COMMIT_KEY, Some(&COMMIT_PAYLOAD_V2)).expire_timestamp, -1);
    assert_eq!(commit_of(&COMMIT_KEY, Some(&COMMIT_PAYLOAD_V3)).expire_timestamp, -1);
}

#[test]
fn commit_payload_is_consumed_to_its_last_byte() {
    let payloads: [&[u8]; 4] =
        [&COMMIT_PAYLOAD_V0, &COMMIT_PAYLOAD_V1, &COMMIT_PAYLOAD_V2, &COMMIT_PAYLOAD_V3];
    for payload in payloads {
        let mut record = commit_tombstone();
        let mut parser = BytesParser::from(payload);
        assert_eq!(record.parse_payload(&mut parser), Ok(()));
        assert_eq!(parser.position(), payload.len());
        assert_eq!(parser.parseable(), 0);
    }
}

#[test]
fn commit_payload_leaves_what_follows_it() {
    let mut bytes = COMMIT_PAYLOAD_V1.to_vec();
    bytes.extend_from_slice(&[0xDE, 0xAD, 0xBE]);
    let mut record = commit_tombstone();
    let mut parser = BytesParser::from(&bytes[..]);
    assert_eq!(record.parse_payload(&mut parser), Ok(()));
    assert_eq!(parser.position(), COMMIT_PAYLOAD_V1.len());
    assert_eq!(parser.parseable(), 3);
    assert_eq!(record.expire_timestamp, 2000);
}

#[test]
fn commit_key_is_consumed_to_its_last_byte() {
    let mut parser = BytesParser::from(&COMMIT_KEY[2..]);
    let commit = OffsetCommit::try_from(&mut parser, 1).unwrap();
    assert_eq!(commit, commit_tombstone());
    assert!(parser.is_at_end());
}

#[test]
fn commit_schema_version_4_is_unsupported() {
    let mut payload = COMMIT_PAYLOAD_V0;
    payload[1] = 0x04;
    assert_eq!(
        KonsumerOffsetsData::try_from_bytes(Some(&COMMIT_KEY), Some(&payload)),
        Err(KonsumerOffsetsError::UnsupportedOffsetCommitSchema(4))
    );
}

#[test]
fn commit_negative_schema_version_is_unsupported() {
    let mut payload = COMMIT_PAYLOAD_V0;
    payload[0] = 0xFF;
    payload[1] = 0xFF;
    assert_eq!(
        KonsumerOffsetsData::try_from_bytes(Some(&COMMIT_KEY), Some(&payload)),
        Err(KonsumerOffsetsError::UnsupportedOffsetCommitSchema(-1))
    );
}

#[test]
fn commit_truncated_payload_is_insufficient_data() {
    for cut in 0..COMMIT_PAYLOAD_V1.len() {
        assert_eq!(
            KonsumerOffsetsData::try_from_bytes(Some(&COMMIT_KEY), Some(&COMMIT_PAYLOAD_V1[..cut])),
            Err(KonsumerOffsetsError::InsufficientData),
            "cut at {}",
            cut
        );
    }
}

#[test]
fn commit_truncated_key_is_insufficient_data() {
    for cut in 0..COMMIT_KEY.len() {
        assert_eq!(
            KonsumerOffsetsData::try_from_bytes(Some(&COMMIT_KEY[..cut]), None),
            Err(KonsumerOffsetsError::InsufficientData),
            "cut at {}",
            cut
        );
    }
}

#[test]
fn commit_metadata_of_invalid_utf8_is_malformed_text() {
    let mut payload = COMMIT_PAYLOAD_V1;
    payload[12] = 0xC3;
    payload[13] = 0x28;
    assert_eq!(
        KonsumerOffsetsData::try_from_bytes(Some(&COMMIT_KEY), Some(&payload)),
        Err(KonsumerOffsetsError::MalformedText)
    );
}

#[test]
fn commit_failed_payload_leaves_the_record_as_it_was() {
    let mut record = commit_tombstone();
    let mut parser = BytesParser::from(&COMMIT_PAYLOAD_V1[..25]);
    assert_eq!(record.parse_payload(&mut parser), Err(KonsumerOffsetsError::InsufficientData));
    assert_eq!(record, commit_tombstone());
}

#[test]
fn commit_key_with_negative_group_length() {
    let key: [u8; 12] = [
        0x00, 0x00, // tag
        0xFF, 0xFF, // group of length -1
        0x00, 0x02, b't', b'p', // topic
        0x00, 0x00, 0x00, 0x00, // partition
    ];
    let commit = commit_of(&key, None);
    assert_eq!(commit.group, "");
    assert_eq!(commit.topic, "tp");
    assert_eq!(commit.partition, 0);
}
