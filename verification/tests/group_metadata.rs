use bytes_parser::BytesParser;
use konsumer_offsets::{
    ConsumerProtocolAssignment, ConsumerProtocolSubscription, GroupMetadata, KonsumerOffsetsData,
    KonsumerOffsetsError, MemberMetadata, TopicPartitions,
};

fn int16(value: i16) -> Vec<u8> {
    value.to_be_bytes().to_vec()
}

fn int32(value: i32) -> Vec<u8> {
    value.to_be_bytes().to_vec()
}

fn int64(value: i64) -> Vec<u8> {
    value.to_be_bytes().to_vec()
}

fn text(value: &str) -> Vec<u8> {
    let mut bytes = int16(value.len() as i16);
    bytes.extend_from_slice(value.as_bytes());
    bytes
}

fn byte_array(value: &[u8]) -> Vec<u8> {
    let mut bytes = int32(value.len() as i32);
    bytes.extend_from_slice(value);
    bytes
}

fn join(parts: &[Vec<u8>]) -> Vec<u8> {
    parts.concat()
}

fn topic_partitions(topic: &str, partitions: &[i32]) -> Vec<u8> {
    let mut bytes = text(topic);
    bytes.extend(int32(partitions.len() as i32));
    for partition in partitions {
        bytes.extend(int32(*partition));
    }
    bytes
}

/// A subscription of version 1 to the topic `topic`, which owns two partitions of `topic`
/// and one of "other".
fn subscription_v1(topic: &str) -> Vec<u8> {
    join(&[
        int16(1),
        int32(1),
        text(topic),
        byte_array(&[0x01, 0x02]),
        int32(2),
        topic_partitions(topic, &[0, 1]),
        topic_partitions("other", &[5]),
    ])
}

fn assignment_v1(topic: &str) -> Vec<u8> {
    join(&[int16(1), int32(1), topic_partitions(topic, &[0, 1, 2]), byte_array(&[])])
}

/// A member of a group whose metadata has schema version 2.
fn member_v2(id: &str, topic: &str) -> Vec<u8> {
    join(&[
        text(id),
        text("client"),
        text("/10.0.0.1"),
        int32(300000),
        int32(10000),
        byte_array(&subscription_v1(topic)),
        byte_array(&assignment_v1(topic)),
    ])
}

fn group_key(group: &str) -> Vec<u8> {
    join(&[int16(2), text(group)])
}

fn group_of(key: &[u8], payload: Option<&[u8]>) -> GroupMetadata {
    match KonsumerOffsetsData::try_from_bytes(Some(key), payload) {
        Ok(KonsumerOffsetsData::GroupMetadata(group)) => group,
        other => panic!("not a group's metadata: {:?}", other),
    }
}

fn group_failure(payload: &[u8]) -> KonsumerOffsetsError {
    match KonsumerOffsetsData::try_from_bytes(Some(&group_key("g")), Some(payload)) {
        Err(e) => e,
        Ok(record) => panic!("decoded: {:?}", record),
    }
}

fn subscription_of(bytes: &[u8]) -> String {
    let mut parser = BytesParser::from(bytes);
    format!("{:?}", ConsumerProtocolSubscription::try_from(&mut parser).unwrap())
}

fn assignment_of(bytes: &[u8]) -> String {
    let mut parser = BytesParser::from(bytes);
    format!("{:?}", ConsumerProtocolAssignment::try_from(&mut parser).unwrap())
}

#[test]
fn group_defaults_are_all_zero_and_empty() {
    let group = GroupMetadata::default();
    assert_eq!(group.message_version, 0);
    assert_eq!(group.group, "");
    assert!(!group.is_tombstone);
    assert_eq!(group.schema_version, 0);
    assert_eq!(group.protocol_type, "");
    assert_eq!(group.generation, 0);
    assert_eq!(group.protocol, "");
    assert_eq!(group.leader, "");
    assert_eq!(group.current_state_timestamp, 0);
    assert!(group.members.is_empty());

    let member = MemberMetadata::default();
    assert_eq!(member.id, "");
    assert_eq!(member.rebalance_timeout, 0);
    assert_eq!(member.session_timeout, 0);
    assert_eq!(member.subscription, ConsumerProtocolSubscription::default());
    assert_eq!(member.assignment, ConsumerProtocolAssignment::default());
    assert_eq!(
        format!("{:?}", ConsumerProtocolSubscription::default()),
        "ConsumerProtocolSubscription { schema_version: 0, subscribed_topics: [], user_data: [], \
         owned_topic_partitions: [], generation_id: 0, rack_id: \"\" }"
    );
    assert_eq!(
        format!("{:?}", ConsumerProtocolAssignment::default()),
        "ConsumerProtocolAssignment { schema_version: 0, assigned_topic_partitions: [], user_data: [] }"
    );
    assert_eq!(format!("{:?}", TopicPartitions::default()), "TopicPartitions { topic: \"\", partitions: [] }");
}

#[test]
fn group_without_payload_is_a_tombstone_with_defaults() {
    let group = group_of(&group_key("my-group"), None);
    let expected = GroupMetadata {
        message_version: 2,
        group: String::from("my-group"),
        is_tombstone: true,
        ..GroupMetadata::default()
    };
    assert_eq!(group, expected);
}

#[test]
fn group_fixture_schema_version_0_without_members() {
    let payload = join(&[int16(0), text("consumer"), int32(1), text("range"), text("leader-1"), int32(0)]);
    let group = group_of(&group_key("g0"), Some(&payload));
    let expected = GroupMetadata {
        message_version: 2,
        group: String::from("g0"),
        is_tombstone: false,
        schema_version: 0,
        protocol_type: String::from("consumer"),
        generation: 1,
        protocol: String::from("range"),
        leader: String::from("leader-1"),
        current_state_timestamp: -1,
        members: Vec::new(),
    };
    assert_eq!(group, expected);
}

#[test]
fn group_fixture_schema_version_0_with_a_member() {
    let member = join(&[
        text("m-0"),
        text("client"),
        text("/127.0.0.1"),
        int32(10000),
        byte_array(&join(&[int16(0), int32(2), text("a"), text("b"), byte_array(&[])])),
        byte_array(&join(&[int16(0), int32(0), byte_array(&[0x09])])),
    ]);
    let payload = join(&[int16(0), text("consumer"), int32(3), text("range"), text("m-0"), int32(1), member]);
    let group = group_of(&group_key("g0"), Some(&payload));
    assert_eq!(group.schema_version, 0);
    assert_eq!(group.current_state_timestamp, -1);
    assert_eq!(group.members.len(), 1);
    let member = &group.members[0];
    assert_eq!(member.id, "m-0");
    assert_eq!(member.group_instance_id, "");
    assert_eq!(member.client_id, "client");
    assert_eq!(member.client_host, "/127.0.0.1");
    assert_eq!(member.rebalance_timeout, 0);
    assert_eq!(member.session_timeout, 10000);
    assert_eq!(
        format!("{:?}", member.subscription),
        "ConsumerProtocolSubscription { schema_version: 0, subscribed_topics: [\"a\", \"b\"], user_data: [], \
         owned_topic_partitions: [], generation_id: -1, rack_id: \"\" }"
    );
    assert_eq!(
        format!("{:?}", member.assignment),
        "ConsumerProtocolAssignment { schema_version: 0, assigned_topic_partitions: [], user_data: [9] }"
    );
}

#[test]
fn group_fixture_schema_version_1_has_a_rebalance_timeout() {
    let member = join(&[
        text("m-1"),
        text("client"),
        text("/127.0.0.1"),
        int32(60000),
        int32(10000),
        byte_array(&join(&[int16(0), int32(0), byte_array(&[])])),
        byte_array(&join(&[int16(0), int32(0), byte_array(&[])])),
    ]);
    let payload = join(&[int16(1), text("connect"), int32(7), text("compatible"), text("m-1"), int32(1), member]);
    let group = group_of(&group_key("g1"), Some(&payload));
    assert_eq!(group.schema_version, 1);
    assert_eq!(group.protocol_type, "connect");
    assert_eq!(group.generation, 7);
    assert_eq!(group.protocol, "compatible");
    assert_eq!(group.leader, "m-1");
    assert_eq!(group.current_state_timestamp, -1);
    assert_eq!(group.members.len(), 1);
    assert_eq!(group.members[0].rebalance_timeout, 60000);
    assert_eq!(group.members[0].session_timeout, 10000);
    assert_eq!(group.members[0].group_instance_id, "");
}

#[test]
fn group_fixture_schema_version_2_with_three_members() {
    let payload = join(&[
        int16(2),
        text("consumer"),
        int32(5),
        text("range"),
        text("m-a"),
        int64(1600000000000),
        int32(3),
        member_v2("m-a", "ta"),
        member_v2("m-b", "tb"),
        member_v2("m-c", "tc"),
    ]);
    let group = group_of(&group_key("g2"), Some(&payload));
    assert_eq!(group.message_version, 2);
    assert_eq!(group.group, "g2");
    assert!(!group.is_tombstone);
    assert_eq!(group.schema_version, 2);
    assert_eq!(group.protocol_type, "consumer");
    assert_eq!(group.generation, 5);
    assert_eq!(group.protocol, "range");
    assert_eq!(group.leader, "m-a");
    assert_eq!(group.current_state_timestamp, 1600000000000);
    assert_eq!(group.members.len(), 3);
    let expected = [("m-a", "ta"), ("m-b", "tb"), ("m-c", "tc")];
    for (member, (id, topic)) in group.members.iter().zip(expected) {
        assert_eq!(member.id, id);
        assert_eq!(member.group_instance_id, "");
        assert_eq!(member.client_id, "client");
        assert_eq!(member.client_host, "/10.0.0.1");
        assert_eq!(member.rebalance_timeout, 300000);
        assert_eq!(member.session_timeout, 10000);
        assert_eq!(
            format!("{:?}", member.subscription),
            format!(
                "ConsumerProtocolSubscription {{ schema_version: 1, subscribed_topics: [\"{0}\"], \
                 user_data: [1, 2], owned_topic_partitions: [TopicPartitions {{ topic: \"{0}\", \
                 partitions: [0, 1] }}, TopicPartitions {{ topic: \"other\", partitions: [5] }}], \
                 generation_id: -1, rack_id: \"\" }}",
                topic
            )
        );
        assert_eq!(
            format!("{:?}", member.assignment),
            format!(
                "ConsumerProtocolAssignment {{ schema_version: 1, assigned_topic_partitions: \
                 [TopicPartitions {{ topic: \"{0}\", partitions: [0, 1, 2] }}], user_data: [] }}",
                topic
            )
        );
    }
}

#[test]
fn group_fixture_schema_version_3_has_instance_identifiers() {
    let subscription = join(&[
        int16(3),
        int32(1),
        text("t"),
        byte_array(&[]),
        int32(1),
        topic_partitions("t", &[4]),
        int32(12),
        text("rack-1"),
    ]);
    let assignment = join(&[int16(3), int32(1), topic_partitions("t", &[4]), byte_array(&[0xAB])]);
    let member = join(&[
        text("m-3"),
        text("instance-3"),
        text("client"),
        text("/10.1.1.1"),
        int32(1),
        int32(2),
        byte_array(&subscription),
        byte_array(&assignment),
    ]);
    let payload =
        join(&[int16(3), text("consumer"), int32(9), text("sticky"), text("m-3"), int64(-5), int32(1), member]);
    let group = group_of(&group_key("g3"), Some(&payload));
    assert_eq!(group.schema_version, 3);
    assert_eq!(group.protocol, "sticky");
    assert_eq!(group.current_state_timestamp, -5);
    assert_eq!(group.members.len(), 1);
    let member = &group.members[0];
    assert_eq!(member.id, "m-3");
    assert_eq!(member.group_instance_id, "instance-3");
    assert_eq!(member.client_id, "client");
    assert_eq!(member.client_host, "/10.1.1.1");
    assert_eq!(member.rebalance_timeout, 1);
    assert_eq!(member.session_timeout, 2);
    assert_eq!(
        format!("{:?}", member.subscription),
        "ConsumerProtocolSubscription { schema_version: 3, subscribed_topics: [\"t\"], user_data: [], \
         owned_topic_partitions: [TopicPartitions { topic: \"t\", partitions: [4] }], generation_id: 12, \
         rack_id: \"rack-1\" }"
    );
    assert_eq!(
        format!("{:?}", member.assignment),
        "ConsumerProtocolAssignment { schema_version: 3, assigned_topic_partitions: [TopicPartitions { topic: \
         \"t\", partitions: [4] }], user_data: [171] }"
    );
}

#[test]
fn group_fixture_from_literal_bytes() {
    let key: [u8; 6] = [0x00, 0x02, 0x00, 0x02, b'g', b'x'];
    let payload: [u8; 82] = [
        0x00, 0x02, // schema version 2
        0x00, 0x08, b'c', b'o', b'n', b's', b'u', b'm', b'e', b'r', // protocol type
        0x00, 0x00, 0x00, 0x02, // generation
        0x00, 0x01, b'r', // protocol
        0x00, 0x01, b'm', // leader
        0x00, 0x00, 0x00, 0x00, 0x00, 0x00, 0x00, 0x64, // timestamp of the state
        0x00, 0x00, 0x00, 0x01, // one member
        0x00, 0x01, b'm', // id
        0x00, 0x01, b'c', // client id
        0x00, 0x01, b'h', // client host
        0x00, 0x00, 0x00, 0x0A, // rebalance timeout
        0x00, 0x00, 0x00, 0x0B, // session timeout
        0x00, 0x00, 0x00, 0x0D, // subscription: 13 bytes
        0x00, 0x00, // version 0
        0x00, 0x00, 0x00, 0x01, 0x00, 0x01, b't', // one topic
        0x00, 0x00, 0x00, 0x00, // no user data
        0x00, 0x00, 0x00, 0x0A, // assignment: 10 bytes
        0x00, 0x00, // version 0
        0x00, 0x00, 0x00, 0x00, // nothing assigned
        0x00, 0x00, 0x00, 0x00, // no user data
    ];
    let group = group_of(&key, Some(&payload));
    assert_eq!(group.group, "gx");
    assert_eq!(group.schema_version, 2);
    assert_eq!(group.protocol_type, "consumer");
    assert_eq!(group.generation, 2);
    assert_eq!(group.protocol, "r");
    assert_eq!(group.leader, "m");
    assert_eq!(group.current_state_timestamp, 100);
    assert_eq!(group.members.len(), 1);
    assert_eq!(group.members[0].id, "m");
    assert_eq!(group.members[0].client_id, "c");
    assert_eq!(group.members[0].client_host, "h");
    assert_eq!(group.members[0].rebalance_timeout, 10);
    assert_eq!(group.members[0].session_timeout, 11);
    assert_eq!(
        format!("{:?}", group.members[0].subscription),
        "ConsumerProtocolSubscription { schema_version: 0, subscribed_topics: [\"t\"], user_data: [], \
         owned_topic_partitions: [], generation_id: -1, rack_id: \"\" }"
    );
    assert_eq!(
        format!("{:?}", group.members[0].assignment),
        "ConsumerProtocolAssignment { schema_version: 0, assigned_topic_partitions: [], user_data: [] }"
    );
}

#[test]
fn group_payload_is_consumed_to_its_last_byte() {
    let payload = join(&[
        int16(2),
        text("consumer"),
        int32(5),
        text("range"),
        text("m-a"),
        int64(1),
        int32(2),
        member_v2("m-a", "ta"),
        member_v2("m-b", "tb"),
        vec![0xEE, 0xFF],
    ]);
    let mut group = GroupMetadata::default();
    let mut parser = BytesParser::from(&payload[..]);
    assert_eq!(group.parse_payload(&mut parser), Ok(()));
    assert_eq!(parser.parseable(), 2);
    assert_eq!(group.members.len(), 2);
}

#[test]
fn group_with_negative_member_count_has_no_members() {
    let payload = join(&[int16(1), text("consumer"), int32(1), text("range"), text(""), int32(-1)]);
    let group = group_of(&group_key("g"), Some(&payload));
    assert!(group.members.is_empty());
    assert!(!group.is_tombstone);
}

#[test]
fn group_schema_version_4_is_unsupported() {
    let payload = join(&[int16(4), text("consumer")]);
    assert_eq!(group_failure(&payload), KonsumerOffsetsError::UnsupportedGroupMetadataSchema(4));
    assert_eq!(group_failure(&int16(-7)), KonsumerOffsetsError::UnsupportedGroupMetadataSchema(-7));
}

#[test]
fn group_with_fewer_members_than_counted_is_insufficient_data() {
    let payload = join(&[
        int16(2),
        text("consumer"),
        int32(5),
        text("range"),
        text("m-a"),
        int64(1),
        int32(2),
        member_v2("m-a", "ta"),
    ]);
    assert_eq!(group_failure(&payload), KonsumerOffsetsError::InsufficientData);
}

#[test]
fn group_truncated_payload_is_insufficient_data() {
    let payload = join(&[
        int16(2),
        text("consumer"),
        int32(5),
        text("range"),
        text("m-a"),
        int64(1),
        int32(1),
        member_v2("m-a", "ta"),
    ]);
    for cut in 0..payload.len() {
        assert_eq!(group_failure(&payload[..cut]), KonsumerOffsetsError::InsufficientData, "cut at {}", cut);
    }
}

#[test]
fn group_failed_payload_leaves_the_record_as_it_was() {
    let mut parser = BytesParser::from(&[0x00u8, 0x01, 0x00][..]);
    let mut group = GroupMetadata { group: String::from("kept"), is_tombstone: true, ..GroupMetadata::default() };
    let before = group.clone();
    assert_eq!(group.parse_payload(&mut parser), Err(KonsumerOffsetsError::InsufficientData));
    assert_eq!(group, before);
}

#[test]
fn member_subscription_version_is_checked() {
    let member = join(&[
        text("m"),
        text("c"),
        text("h"),
        int32(1),
        int32(2),
        byte_array(&join(&[int16(4), int32(0), byte_array(&[])])),
        byte_array(&join(&[int16(0), int32(0), byte_array(&[])])),
    ]);
    let payload = join(&[int16(2), text("consumer"), int32(5), text("range"), text("m"), int64(1), int32(1), member]);
    assert_eq!(group_failure(&payload), KonsumerOffsetsError::UnsupportedConsumerProtocolSubscriptionVersion(4));
}

#[test]
fn member_assignment_version_is_checked() {
    let member = join(&[
        text("m"),
        text("c"),
        text("h"),
        int32(1),
        int32(2),
        byte_array(&join(&[int16(0), int32(0), byte_array(&[])])),
        byte_array(&join(&[int16(-1), int32(0), byte_array(&[])])),
    ]);
    let payload = join(&[int16(2), text("consumer"), int32(5), text("range"), text("m"), int64(1), int32(1), member]);
    assert_eq!(group_failure(&payload), KonsumerOffsetsError::UnsupportedConsumerProtocolAssignmentVersion(-1));
}

#[test]
fn member_blob_length_is_authoritative() {
    // The subscription's blob holds three bytes more than the subscription takes.
    let mut subscription = join(&[int16(0), int32(0), byte_array(&[])]);
    subscription.extend_from_slice(&[0xAA, 0xBB, 0xCC]);
    let member = join(&[
        text("m"),
        text("c"),
        text("h"),
        int32(5),
        byte_array(&subscription),
        byte_array(&join(&[int16(0), int32(0), byte_array(&[0x07])])),
    ]);
    let mut parser = BytesParser::from(&member[..]);
    let member = MemberMetadata::try_from(&mut parser, 0).unwrap();
    assert!(parser.is_at_end());
    assert_eq!(member.session_timeout, 5);
    assert_eq!(
        format!("{:?}", member.assignment),
        "ConsumerProtocolAssignment { schema_version: 0, assigned_topic_partitions: [], user_data: [7] }"
    );
}

#[test]
fn member_blob_cannot_be_read_beyond_its_end() {
    // The subscription announces one topic, but its blob ends after the count: the
    // topic's bytes, which follow the blob, are not the subscription's to read.
    let subscription = join(&[int16(0), int32(1)]);
    let member = join(&[
        text("m"),
        text("c"),
        text("h"),
        int32(5),
        byte_array(&subscription),
        text("t"),
        byte_array(&[]),
        byte_array(&join(&[int16(0), int32(0), byte_array(&[])])),
    ]);
    let mut parser = BytesParser::from(&member[..]);
    assert_eq!(MemberMetadata::try_from(&mut parser, 0), Err(KonsumerOffsetsError::InsufficientData));
}

#[test]
fn member_blob_with_negative_length_is_insufficient_data() {
    let member = join(&[text("m"), text("c"), text("h"), int32(5), int32(-1), vec![0x00; 16]]);
    let mut parser = BytesParser::from(&member[..]);
    assert_eq!(MemberMetadata::try_from(&mut parser, 0), Err(KonsumerOffsetsError::InsufficientData));
}

#[test]
fn member_blob_longer_than_the_input_is_insufficient_data() {
    let member = join(&[text("m"), text("c"), text("h"), int32(5), int32(100), vec![0x00; 16]]);
    let mut parser = BytesParser::from(&member[..]);
    assert_eq!(MemberMetadata::try_from(&mut parser, 0), Err(KonsumerOffsetsError::InsufficientData));
}

#[test]
fn subscription_fields_by_version() {
    let v0 = join(&[int16(0), int32(1), text("a"), byte_array(&[1])]);
    assert_eq!(
        subscription_of(&v0),
        "ConsumerProtocolSubscription { schema_version: 0, subscribed_topics: [\"a\"], user_data: [1], \
         owned_topic_partitions: [], generation_id: -1, rack_id: \"\" }"
    );
    let v1 = join(&[int16(1), int32(1), text("a"), byte_array(&[1]), int32(1), topic_partitions("a", &[3])]);
    assert_eq!(
        subscription_of(&v1),
        "ConsumerProtocolSubscription { schema_version: 1, subscribed_topics: [\"a\"], user_data: [1], \
         owned_topic_partitions: [TopicPartitions { topic: \"a\", partitions: [3] }], generation_id: -1, \
         rack_id: \"\" }"
    );
    let v2 = join(&[int16(2), int32(0), byte_array(&[]), int32(0), int32(77)]);
    assert_eq!(
        subscription_of(&v2),
        "ConsumerProtocolSubscription { schema_version: 2, subscribed_topics: [], user_data: [], \
         owned_topic_partitions: [], generation_id: 77, rack_id: \"\" }"
    );
    let v3 = join(&[int16(3), int32(-1), byte_array(&[]), int32(-1), int32(-3), text("r")]);
    assert_eq!(
        subscription_of(&v3),
        "ConsumerProtocolSubscription { schema_version: 3, subscribed_topics: [], user_data: [], \
         owned_topic_partitions: [], generation_id: -3, rack_id: \"r\" }"
    );
}

#[test]
fn subscription_is_consumed_to_its_last_byte() {
    let mut bytes = subscription_v1("t");
    let len = bytes.len();
    bytes.push(0x55);
    let mut parser = BytesParser::from(&bytes[..]);
    assert!(ConsumerProtocolSubscription::try_from(&mut parser).is_ok());
    assert_eq!(parser.position(), len);
}

#[test]
fn subscription_version_outside_0_to_3_is_unsupported() {
    let bytes = join(&[int16(4), int32(0), byte_array(&[])]);
    let mut parser = BytesParser::from(&bytes[..]);
    assert_eq!(
        ConsumerProtocolSubscription::try_from(&mut parser),
        Err(KonsumerOffsetsError::UnsupportedConsumerProtocolSubscriptionVersion(4))
    );
    let bytes = int16(-1);
    let mut parser = BytesParser::from(&bytes[..]);
    assert_eq!(
        ConsumerProtocolSubscription::try_from(&mut parser),
        Err(KonsumerOffsetsError::UnsupportedConsumerProtocolSubscriptionVersion(-1))
    );
}

#[test]
fn subscription_topic_of_invalid_utf8_is_malformed_text() {
    let bytes = join(&[int16(0), int32(1), int16(1), vec![0xFF], byte_array(&[])]);
    let mut parser = BytesParser::from(&bytes[..]);
    assert_eq!(ConsumerProtocolSubscription::try_from(&mut parser), Err(KonsumerOffsetsError::MalformedText));
}

#[test]
fn assignment_fields() {
    let bytes = join(&[
        int16(2),
        int32(2),
        topic_partitions("a", &[0]),
        topic_partitions("b", &[]),
        byte_array(&[0xFF, 0x00]),
    ]);
    assert_eq!(
        assignment_of(&bytes),
        "ConsumerProtocolAssignment { schema_version: 2, assigned_topic_partitions: [TopicPartitions { topic: \
         \"a\", partitions: [0] }, TopicPartitions { topic: \"b\", partitions: [] }], user_data: [255, 0] }"
    );
}

#[test]
fn assignment_version_outside_0_to_3_is_unsupported() {
    let bytes = join(&[int16(9), int32(0), byte_array(&[])]);
    let mut parser = BytesParser::from(&bytes[..]);
    assert_eq!(
        ConsumerProtocolAssignment::try_from(&mut parser),
        Err(KonsumerOffsetsError::UnsupportedConsumerProtocolAssignmentVersion(9))
    );
}

#[test]
fn topic_partitions_at_version_4_cannot_be_parsed() {
    let bytes = topic_partitions("t", &[1, 2]);
    let mut parser = BytesParser::from(&bytes[..]);
    assert_eq!(
        TopicPartitions::try_from(&mut parser, 4),
        Err(KonsumerOffsetsError::UnableToParseForVersion(
            String::from("TopicPartitions"),
            4,
            String::from("ConsumerProtocolSubscription")
        ))
    );
    assert_eq!(parser.position(), 0);
    assert_eq!(parser.parseable(), bytes.len());
}

#[test]
fn topic_partitions_up_to_version_3() {
    let bytes = topic_partitions("topic", &[7, -1, 2147483647]);
    for version in [i16::MIN, -1, 0, 1, 2, 3] {
        let mut parser = BytesParser::from(&bytes[..]);
        let decoded = TopicPartitions::try_from(&mut parser, version).unwrap();
        assert_eq!(
            format!("{:?}", decoded),
            "TopicPartitions { topic: \"topic\", partitions: [7, -1, 2147483647] }"
        );
        assert!(parser.is_at_end());
    }
}

#[test]
fn topic_partitions_with_count_of_zero_or_less() {
    for count in [0, -1, i32::MIN] {
        let bytes = join(&[text("t"), int32(count), int32(5)]);
        let mut parser = BytesParser::from(&bytes[..]);
        let decoded = TopicPartitions::try_from(&mut parser, 0).unwrap();
        assert_eq!(format!("{:?}", decoded), "TopicPartitions { topic: \"t\", partitions: [] }");
        assert_eq!(parser.parseable(), 4);
    }
}

#[test]
fn topic_partitions_with_fewer_partitions_than_counted() {
    let bytes = join(&[text("t"), int32(2), int32(5)]);
    let mut parser = BytesParser::from(&bytes[..]);
    assert_eq!(TopicPartitions::try_from(&mut parser, 0), Err(KonsumerOffsetsError::InsufficientData));
}

#[test]
fn lists_with_huge_counts_fail_for_want_of_bytes() {
    let subscription = join(&[int16(0), int32(i32::MAX), text("a")]);
    let mut parser = BytesParser::from(&subscription[..]);
    assert_eq!(ConsumerProtocolSubscription::try_from(&mut parser), Err(KonsumerOffsetsError::InsufficientData));

    let assignment = join(&[int16(0), int32(i32::MAX)]);
    let mut parser = BytesParser::from(&assignment[..]);
    assert_eq!(ConsumerProtocolAssignment::try_from(&mut parser), Err(KonsumerOffsetsError::InsufficientData));

    let partitions = join(&[text("t"), int32(i32::MAX), int32(1)]);
    let mut parser = BytesParser::from(&partitions[..]);
    assert_eq!(TopicPartitions::try_from(&mut parser, 0), Err(KonsumerOffsetsError::InsufficientData));

    let payload = join(&[int16(0), text("consumer"), int32(1), text("range"), text("m"), int32(i32::MAX)]);
    assert_eq!(group_failure(&payload), KonsumerOffsetsError::InsufficientData);
}

#[test]
fn members_keep_the_order_of_the_payload() {
    let payload = join(&[
        int16(2),
        text("consumer"),
        int32(5),
        text("range"),
        text("z"),
        int64(1),
        int32(4),
        member_v2("z", "t4"),
        member_v2("a", "t3"),
        member_v2("m", "t2"),
        member_v2("a", "t1"),
    ]);
    let group = group_of(&group_key("g"), Some(&payload));
    let ids: Vec<&str> = group.members.iter().map(|m| m.id.as_str()).collect();
    assert_eq!(ids, vec!["z", "a", "m", "a"]);
}
