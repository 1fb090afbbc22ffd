//! Group metadata: the members of a consumer group, what each subscribes to and what
//! each was assigned.

use crate::cursor::{parse_i16, parse_i32, parse_i64, reads_big_endian, unread};
use crate::errors::{ErrorView, KonsumerOffsetsError};
use crate::framing::{
    blob_reader, byte_array_reader, framed, frames, i16_reader, i32_if_reader, i64_if_reader, lemma_blob_reader_frames,
    lemma_byte_array_reader_frames, lemma_field, lemma_i16_reader_frames, lemma_i32_reader_frames,
    lemma_list_readers_frame, lemma_optional_readers_frame, lemma_record_bounds, lemma_str_reader_frames,
    list_if_reader, list_reader, str_if_reader,
};
use crate::utils::{parse_str, parse_vec_bytes};
use crate::wire::{
    after, be_i16, decoded, filled, i32_reader, lemma_after_nothing, lemma_read_many_done, lemma_read_many_step,
    read_blob, read_byte_array, read_i16, read_i32, read_i32_if, read_i64_if, read_list, read_list_if, read_many,
    read_str, read_str_if, str_reader, Reading,
};
use bytes_parser::BytesParser;
use vstd::prelude::*;

verus! {

/// The name under which a topic's partitions are reported when they cannot be decoded.
pub open spec fn topic_partitions_name() -> Seq<char> {
    "TopicPartitions"@
}

/// The name of the structure reported as holding the partitions that cannot be decoded.
pub open spec fn topic_partitions_parent_name() -> Seq<char> {
    "ConsumerProtocolSubscription"@
}

/// Some partitions of one topic.
#[derive(Debug, Clone, Eq, PartialEq)]
pub struct TopicPartitions {
    /// The topic.
    topic: String,
    /// The partitions: all of the topic's, or some of them, as the context says.
    partitions: Vec<i32>,
}

/// A [`TopicPartitions`] with its text and its list as sequences.
pub struct TopicPartitionsView {
    pub topic: Seq<char>,
    pub partitions: Seq<i32>,
}

impl View for TopicPartitions {
    type V = TopicPartitionsView;

    closed spec fn view(&self) -> TopicPartitionsView {
        TopicPartitionsView { topic: self.topic@, partitions: self.partitions@ }
    }
}

impl DeepView for TopicPartitions {
    type V = TopicPartitionsView;

    open spec fn deep_view(&self) -> TopicPartitionsView {
        self@
    }
}

/// Reads a topic with its partitions, for a subscription or an assignment of the
/// given version: the topic, then the list of partition numbers. A version above 3
/// fails before anything is read.
pub open spec fn read_topic_partitions(version: i16, s: Seq<u8>) -> Reading<TopicPartitionsView> {
    if version > 3 {
        Err(ErrorView::UnableToParseForVersion(topic_partitions_name(), version, topic_partitions_parent_name()))
    } else {
        match read_str(s) {
            Err(e) => Err(e),
            Ok((topic, s1)) => match read_list(i32_reader(), s1) {
                Err(e) => Err(e),
                Ok((partitions, s2)) => Ok((TopicPartitionsView { topic, partitions }, s2)),
            },
        }
    }
}

/// The reader of a topic with its partitions at one version.
pub open spec fn topic_partitions_reader(version: i16) -> spec_fn(Seq<u8>) -> Reading<TopicPartitionsView> {
    |s: Seq<u8>| read_topic_partitions(version, s)
}

/// Reads a list of partition numbers: an `i32` count, then that many `i32`s.
#[verifier::loop_isolation(false)]
fn parse_partitions(parser: &mut BytesParser) -> (r: Result<Vec<i32>, KonsumerOffsetsError>)
    requires
        reads_big_endian(*old(parser)),
    ensures
        reads_big_endian(*final(parser)),
        decoded(r, unread(*final(parser)), read_list(i32_reader(), unread(*old(parser)))),
{
    proof {
        reveal(read_list);
    }
    let count: i32 = parse_i32(parser)?;
    let mut partitions: Vec<i32> = Vec::new();
    let ghost start = unread(*parser);
    let mut i: i32 = 0;
    proof {
        lemma_after_nothing(read_many(i32_reader(), count as nat, start));
        assert(partitions.deep_view() =~= Seq::empty());
    }
    while i < count
        invariant
            0 <= i,
            count > 0 ==> i <= count,
            reads_big_endian(*parser),
            count > 0 ==> after(
                partitions.deep_view(),
                read_many(i32_reader(), (count - i) as nat, unread(*parser)),
            ) == read_many(i32_reader(), count as nat, start),
            count <= 0 ==> partitions.deep_view() =~= Seq::empty() && unread(*parser) == start,
        decreases count - i,
    {
        proof {
            lemma_read_many_step(i32_reader(), partitions.deep_view(), (count - i) as nat, unread(*parser));
        }
        let ghost before = partitions.deep_view();
        let partition: i32 = parse_i32(parser)?;
        partitions.push(partition);
        assert(partitions.deep_view() =~= before.push(partition));
        i += 1;
    }
    proof {
        lemma_read_many_done(i32_reader(), partitions.deep_view(), unread(*parser));
    }
    Ok(partitions)
}

impl Default for TopicPartitions {
    /// No topic and no partitions.
    fn default() -> (r: Self)
        ensures
            r@ == (TopicPartitionsView { topic: Seq::empty(), partitions: Seq::empty() }),
    {
        TopicPartitions { topic: String::new(), partitions: Vec::new() }
    }
}

impl TopicPartitions {
    /// Decodes a topic with its partitions, as held by a subscription or an assignment
    /// of the given version.
    ///
    /// A version above 3 fails without reading anything: the layout beyond it is not
    /// known.
    pub fn try_from(parser: &mut BytesParser, version: i16) -> (r: Result<Self, KonsumerOffsetsError>)
        requires
            reads_big_endian(*old(parser)),
        ensures
            reads_big_endian(*final(parser)),
            decoded(r, unread(*final(parser)), read_topic_partitions(version, unread(*old(parser)))),
            version > 3 ==> unread(*final(parser)) == unread(*old(parser)),
    {
        if version > 3 {
            return Err(
                KonsumerOffsetsError::UnableToParseForVersion(
                    "TopicPartitions".to_owned(),
                    version,
                    "ConsumerProtocolSubscription".to_owned(),
                ),
            );
        }
        let topic = parse_str(parser)?;
        let partitions = parse_partitions(parser)?;
        assert(partitions.deep_view() =~= partitions@);
        Ok(TopicPartitions { topic, partitions })
    }
}

/// Reads a list of topics with their partitions: an `i32` count, then that many of
/// them, each at the given version.
#[verifier::loop_isolation(false)]
fn parse_topic_partitions_list(parser: &mut BytesParser, version: i16) -> (r: Result<
    Vec<TopicPartitions>,
    KonsumerOffsetsError,
>)
    requires
        reads_big_endian(*old(parser)),
    ensures
        reads_big_endian(*final(parser)),
        decoded(r, unread(*final(parser)), read_list(topic_partitions_reader(version), unread(*old(parser)))),
{
    proof {
        reveal(read_list);
    }
    let count: i32 = parse_i32(parser)?;
    let mut list: Vec<TopicPartitions> = Vec::new();
    let ghost start = unread(*parser);
    let ghost item = topic_partitions_reader(version);
    let mut i: i32 = 0;
    proof {
        lemma_after_nothing(read_many(item, count as nat, start));
        assert(list.deep_view() =~= Seq::empty());
    }
    while i < count
        invariant
            0 <= i,
            count > 0 ==> i <= count,
            reads_big_endian(*parser),
            count > 0 ==> after(list.deep_view(), read_many(item, (count - i) as nat, unread(*parser)))
                == read_many(item, count as nat, start),
            count <= 0 ==> list.deep_view() =~= Seq::empty() && unread(*parser) == start,
        decreases count - i,
    {
        proof {
            lemma_read_many_step(item, list.deep_view(), (count - i) as nat, unread(*parser));
        }
        let ghost before = list.deep_view();
        let entry = TopicPartitions::try_from(parser, version)?;
        let ghost added = entry@;
        list.push(entry);
        assert(list.deep_view() =~= before.push(added));
        i += 1;
    }
    proof {
        lemma_read_many_done(item, list.deep_view(), unread(*parser));
    }
    Ok(list)
}

/// Reads a list of topic names: an `i32` count, then that many strings.
#[verifier::loop_isolation(false)]
fn parse_topics(parser: &mut BytesParser) -> (r: Result<Vec<String>, KonsumerOffsetsError>)
    requires
        reads_big_endian(*old(parser)),
    ensures
        reads_big_endian(*final(parser)),
        decoded(r, unread(*final(parser)), read_list(str_reader(), unread(*old(parser)))),
{
    proof {
        reveal(read_list);
    }
    let count: i32 = parse_i32(parser)?;
    let mut topics: Vec<String> = Vec::new();
    let ghost start = unread(*parser);
    let mut i: i32 = 0;
    proof {
        lemma_after_nothing(read_many(str_reader(), count as nat, start));
        assert(topics.deep_view() =~= Seq::empty());
    }
    while i < count
        invariant
            0 <= i,
            count > 0 ==> i <= count,
            reads_big_endian(*parser),
            count > 0 ==> after(topics.deep_view(), read_many(str_reader(), (count - i) as nat, unread(*parser)))
                == read_many(str_reader(), count as nat, start),
            count <= 0 ==> topics.deep_view() =~= Seq::empty() && unread(*parser) == start,
        decreases count - i,
    {
        proof {
            lemma_read_many_step(str_reader(), topics.deep_view(), (count - i) as nat, unread(*parser));
        }
        let ghost before = topics.deep_view();
        let topic = parse_str(parser)?;
        let ghost added = topic@;
        topics.push(topic);
        assert(topics.deep_view() =~= before.push(added));
        i += 1;
    }
    proof {
        lemma_read_many_done(str_reader(), topics.deep_view(), unread(*parser));
    }
    Ok(topics)
}

/// What a consumer subscribes to, as the consumer itself states it.
#[derive(Debug, Clone, Eq, PartialEq)]
pub struct ConsumerProtocolSubscription {
    /// The version of this structure, which decides the fields that follow: `0..=3`.
    schema_version: i16,
    /// The topics that the consumer subscribes to.
    subscribed_topics: Vec<String>,
    /// Data that the consumer hands to the assignor.
    user_data: Vec<u8>,
    /// The partitions that the consumer holds already; empty before version 1.
    owned_topic_partitions: Vec<TopicPartitions>,
    /// The generation of the consumer; `-1` before version 2.
    generation_id: i32,
    /// The rack of the consumer; empty before version 3.
    rack_id: String,
}

/// A [`ConsumerProtocolSubscription`] with its text and its lists as sequences.
pub struct ConsumerProtocolSubscriptionView {
    pub schema_version: i16,
    pub subscribed_topics: Seq<Seq<char>>,
    pub user_data: Seq<u8>,
    pub owned_topic_partitions: Seq<TopicPartitionsView>,
    pub generation_id: i32,
    pub rack_id: Seq<char>,
}

impl View for ConsumerProtocolSubscription {
    type V = ConsumerProtocolSubscriptionView;

    closed spec fn view(&self) -> ConsumerProtocolSubscriptionView {
        ConsumerProtocolSubscriptionView {
            schema_version: self.schema_version,
            subscribed_topics: self.subscribed_topics.deep_view(),
            user_data: self.user_data@,
            owned_topic_partitions: self.owned_topic_partitions.deep_view(),
            generation_id: self.generation_id,
            rack_id: self.rack_id@,
        }
    }
}

impl DeepView for ConsumerProtocolSubscription {
    type V = ConsumerProtocolSubscriptionView;

    open spec fn deep_view(&self) -> ConsumerProtocolSubscriptionView {
        self@
    }
}

impl ConsumerProtocolSubscriptionView {
    /// The subscription in which every number is zero and every text and list empty.
    pub open spec fn empty() -> ConsumerProtocolSubscriptionView {
        ConsumerProtocolSubscriptionView {
            schema_version: 0,
            subscribed_topics: Seq::empty(),
            user_data: Seq::empty(),
            owned_topic_partitions: Seq::empty(),
            generation_id: 0,
            rack_id: Seq::empty(),
        }
    }
}

/// Whether a version of a subscription or an assignment is one that can be decoded.
pub open spec fn consumer_protocol_version_supported(version: i16) -> bool {
    0 <= version <= 3
}

/// Reads a subscription.
///
/// The fields come in this order: the version; the list of subscribed topics; the user
/// data; the list of owned partitions, from version 1 on, each read at this
/// subscription's version; the generation, from version 2 on; the rack, from version
/// 3 on.
pub open spec fn read_subscription(s: Seq<u8>) -> Reading<ConsumerProtocolSubscriptionView> {
    match read_i16(s) {
        Err(e) => Err(e),
        Ok((version, s1)) => if !consumer_protocol_version_supported(version) {
            Err(ErrorView::UnsupportedConsumerProtocolSubscriptionVersion(version))
        } else {
            match read_list(str_reader(), s1) {
                Err(e) => Err(e),
                Ok((subscribed_topics, s2)) => match read_byte_array(s2) {
                    Err(e) => Err(e),
                    Ok((user_data, s3)) => match read_list_if(version >= 1, topic_partitions_reader(version), s3) {
                        Err(e) => Err(e),
                        Ok((owned_topic_partitions, s4)) => match read_i32_if(version >= 2, -1i32, s4) {
                            Err(e) => Err(e),
                            Ok((generation_id, s5)) => match read_str_if(version >= 3, s5) {
                                Err(e) => Err(e),
                                Ok((rack_id, s6)) => Ok(
                                    (
                                        ConsumerProtocolSubscriptionView {
                                            schema_version: version,
                                            subscribed_topics,
                                            user_data,
                                            owned_topic_partitions,
                                            generation_id,
                                            rack_id,
                                        },
                                        s6,
                                    ),
                                ),
                            },
                        },
                    },
                },
            }
        },
    }
}

/// The reader of a subscription.
pub open spec fn subscription_reader() -> spec_fn(Seq<u8>) -> Reading<ConsumerProtocolSubscriptionView> {
    |s: Seq<u8>| read_subscription(s)
}

impl Default for ConsumerProtocolSubscription {
    /// The subscription in which every number is zero and every text and list empty.
    fn default() -> (r: Self)
        ensures
            r@ == ConsumerProtocolSubscriptionView::empty(),
    {
        let r = ConsumerProtocolSubscription {
            schema_version: 0,
            subscribed_topics: Vec::new(),
            user_data: Vec::new(),
            owned_topic_partitions: Vec::new(),
            generation_id: 0,
            rack_id: String::new(),
        };
        assert(r.subscribed_topics.deep_view() =~= Seq::empty());
        assert(r.owned_topic_partitions.deep_view() =~= Seq::empty());
        r
    }
}

impl ConsumerProtocolSubscription {
    /// Decodes a subscription.
    pub fn try_from(parser: &mut BytesParser) -> (r: Result<Self, KonsumerOffsetsError>)
        requires
            reads_big_endian(*old(parser)),
        ensures
            reads_big_endian(*final(parser)),
            decoded(r, unread(*final(parser)), read_subscription(unread(*old(parser)))),
    {
        let schema_version: i16 = parse_i16(parser)?;
        if schema_version < 0 || schema_version > 3 {
            return Err(KonsumerOffsetsError::UnsupportedConsumerProtocolSubscriptionVersion(schema_version));
        }
        let subscribed_topics = parse_topics(parser)?;
        let user_data = parse_vec_bytes(parser)?;
        assert(user_data.deep_view() =~= user_data@);
        let owned_topic_partitions = if schema_version >= 1 {
            parse_topic_partitions_list(parser, schema_version)?
        } else {
            Vec::new()
        };
        assert(schema_version < 1 ==> owned_topic_partitions.deep_view() =~= Seq::empty());
        let generation_id: i32 = if schema_version >= 2 {
            parse_i32(parser)?
        } else {
            -1
        };
        let rack_id = if schema_version >= 3 {
            parse_str(parser)?
        } else {
            String::new()
        };
        Ok(
            ConsumerProtocolSubscription {
                schema_version,
                subscribed_topics,
                user_data,
                owned_topic_partitions,
                generation_id,
                rack_id,
            },
        )
    }
}

/// What a consumer was assigned by the group's coordinator.
#[derive(Debug, Clone, Eq, PartialEq)]
pub struct ConsumerProtocolAssignment {
    /// The version of this structure: `0..=3`.
    schema_version: i16,
    /// The partitions that the consumer was assigned.
    assigned_topic_partitions: Vec<TopicPartitions>,
    /// Data that the assignor hands to the consumer.
    user_data: Vec<u8>,
}

/// A [`ConsumerProtocolAssignment`] with its lists as sequences.
pub struct ConsumerProtocolAssignmentView {
    pub schema_version: i16,
    pub assigned_topic_partitions: Seq<TopicPartitionsView>,
    pub user_data: Seq<u8>,
}

impl View for ConsumerProtocolAssignment {
    type V = ConsumerProtocolAssignmentView;

    closed spec fn view(&self) -> ConsumerProtocolAssignmentView {
        ConsumerProtocolAssignmentView {
            schema_version: self.schema_version,
            assigned_topic_partitions: self.assigned_topic_partitions.deep_view(),
            user_data: self.user_data@,
        }
    }
}

impl DeepView for ConsumerProtocolAssignment {
    type V = ConsumerProtocolAssignmentView;

    open spec fn deep_view(&self) -> ConsumerProtocolAssignmentView {
        self@
    }
}

impl ConsumerProtocolAssignmentView {
    /// The assignment of version zero with nothing assigned and no user data.
    pub open spec fn empty() -> ConsumerProtocolAssignmentView {
        ConsumerProtocolAssignmentView {
            schema_version: 0,
            assigned_topic_partitions: Seq::empty(),
            user_data: Seq::empty(),
        }
    }
}

/// Reads an assignment: the version; the list of assigned partitions, each read at
/// this assignment's version; the user data.
pub open spec fn read_assignment(s: Seq<u8>) -> Reading<ConsumerProtocolAssignmentView> {
    match read_i16(s) {
        Err(e) => Err(e),
        Ok((version, s1)) => if !consumer_protocol_version_supported(version) {
            Err(ErrorView::UnsupportedConsumerProtocolAssignmentVersion(version))
        } else {
            match read_list(topic_partitions_reader(version), s1) {
                Err(e) => Err(e),
                Ok((assigned_topic_partitions, s2)) => match read_byte_array(s2) {
                    Err(e) => Err(e),
                    Ok((user_data, s3)) => Ok(
                        (
                            ConsumerProtocolAssignmentView {
                                schema_version: version,
                                assigned_topic_partitions,
                                user_data,
                            },
                            s3,
                        ),
                    ),
                },
            }
        },
    }
}

/// The reader of an assignment.
pub open spec fn assignment_reader() -> spec_fn(Seq<u8>) -> Reading<ConsumerProtocolAssignmentView> {
    |s: Seq<u8>| read_assignment(s)
}

impl Default for ConsumerProtocolAssignment {
    /// The assignment of version zero with nothing assigned and no user data.
    fn default() -> (r: Self)
        ensures
            r@ == ConsumerProtocolAssignmentView::empty(),
    {
        let r = ConsumerProtocolAssignment {
            schema_version: 0,
            assigned_topic_partitions: Vec::new(),
            user_data: Vec::new(),
        };
        assert(r.assigned_topic_partitions.deep_view() =~= Seq::empty());
        r
    }
}

impl ConsumerProtocolAssignment {
    /// Decodes an assignment.
    pub fn try_from(parser: &mut BytesParser) -> (r: Result<Self, KonsumerOffsetsError>)
        requires
            reads_big_endian(*old(parser)),
        ensures
            reads_big_endian(*final(parser)),
            decoded(r, unread(*final(parser)), read_assignment(unread(*old(parser)))),
    {
        let schema_version: i16 = parse_i16(parser)?;
        if schema_version < 0 || schema_version > 3 {
            return Err(KonsumerOffsetsError::UnsupportedConsumerProtocolAssignmentVersion(schema_version));
        }
        let assigned_topic_partitions = parse_topic_partitions_list(parser, schema_version)?;
        let user_data = parse_vec_bytes(parser)?;
        assert(user_data.deep_view() =~= user_data@);
        Ok(ConsumerProtocolAssignment { schema_version, assigned_topic_partitions, user_data })
    }
}

/// A member of a consumer group.
#[derive(Debug, Clone, Eq, PartialEq)]
pub struct MemberMetadata {
    /// The identifier of the member.
    pub id: String,
    /// The identifier of the member's instance; empty where the group's schema has
    /// none (before version 3).
    pub group_instance_id: String,
    /// The client identifier that the member's consumer was configured with.
    pub client_id: String,
    /// The host of the member's consumer.
    pub client_host: String,
    /// How long, in milliseconds, the coordinator waits for the member to rejoin when
    /// the group rebalances; `0` where the group's schema has none (version 0).
    pub rebalance_timeout: i32,
    /// How long, in milliseconds, the coordinator waits for a heartbeat before it takes
    /// the member for dead.
    pub session_timeout: i32,
    /// What the member subscribes to.
    pub subscription: ConsumerProtocolSubscription,
    /// What the member was assigned.
    pub assignment: ConsumerProtocolAssignment,
}

/// A [`MemberMetadata`] with its text as sequences of characters.
pub struct MemberMetadataView {
    pub id: Seq<char>,
    pub group_instance_id: Seq<char>,
    pub client_id: Seq<char>,
    pub client_host: Seq<char>,
    pub rebalance_timeout: i32,
    pub session_timeout: i32,
    pub subscription: ConsumerProtocolSubscriptionView,
    pub assignment: ConsumerProtocolAssignmentView,
}

impl View for MemberMetadata {
    type V = MemberMetadataView;

    open spec fn view(&self) -> MemberMetadataView {
        MemberMetadataView {
            id: self.id@,
            group_instance_id: self.group_instance_id@,
            client_id: self.client_id@,
            client_host: self.client_host@,
            rebalance_timeout: self.rebalance_timeout,
            session_timeout: self.session_timeout,
            subscription: self.subscription@,
            assignment: self.assignment@,
        }
    }
}

impl DeepView for MemberMetadata {
    type V = MemberMetadataView;

    open spec fn deep_view(&self) -> MemberMetadataView {
        self@
    }
}

impl MemberMetadataView {
    /// The member in which every number is zero and every text and list empty.
    pub open spec fn empty() -> MemberMetadataView {
        MemberMetadataView {
            id: Seq::empty(),
            group_instance_id: Seq::empty(),
            client_id: Seq::empty(),
            client_host: Seq::empty(),
            rebalance_timeout: 0,
            session_timeout: 0,
            subscription: ConsumerProtocolSubscriptionView::empty(),
            assignment: ConsumerProtocolAssignmentView::empty(),
        }
    }
}

/// Reads a member of a group whose metadata has the given schema version.
///
/// The fields come in this order: the identifier; the instance identifier, from
/// version 3 on; the client identifier; the client host; the rebalance timeout, from
/// version 1 on; the session timeout; the subscription, as a blob; the assignment, as
/// a blob.
pub open spec fn read_member(schema_version: i16, s: Seq<u8>) -> Reading<MemberMetadataView> {
    match read_str(s) {
        Err(e) => Err(e),
        Ok((id, s1)) => match read_str_if(schema_version >= 3, s1) {
            Err(e) => Err(e),
            Ok((group_instance_id, s2)) => match read_str(s2) {
                Err(e) => Err(e),
                Ok((client_id, s3)) => match read_str(s3) {
                    Err(e) => Err(e),
                    Ok((client_host, s4)) => match read_i32_if(schema_version >= 1, 0i32, s4) {
                        Err(e) => Err(e),
                        Ok((rebalance_timeout, s5)) => match read_i32(s5) {
                            Err(e) => Err(e),
                            Ok((session_timeout, s6)) => match read_blob(subscription_reader(), s6) {
                                Err(e) => Err(e),
                                Ok((subscription, s7)) => match read_blob(assignment_reader(), s7) {
                                    Err(e) => Err(e),
                                    Ok((assignment, s8)) => Ok(
                                        (
                                            MemberMetadataView {
                                                id,
                                                group_instance_id,
                                                client_id,
                                                client_host,
                                                rebalance_timeout,
                                                session_timeout,
                                                subscription,
                                                assignment,
                                            },
                                            s8,
                                        ),
                                    ),
                                },
                            },
                        },
                    },
                },
            },
        },
    }
}

/// The reader of a member at one schema version of the group's metadata.
pub open spec fn member_reader(schema_version: i16) -> spec_fn(Seq<u8>) -> Reading<MemberMetadataView> {
    |s: Seq<u8>| read_member(schema_version, s)
}

impl Default for MemberMetadata {
    /// The member in which every number is zero and every text and list empty.
    fn default() -> (r: Self)
        ensures
            r@ == MemberMetadataView::empty(),
    {
        MemberMetadata {
            id: String::new(),
            group_instance_id: String::new(),
            client_id: String::new(),
            client_host: String::new(),
            rebalance_timeout: 0,
            session_timeout: 0,
            subscription: ConsumerProtocolSubscription::default(),
            assignment: ConsumerProtocolAssignment::default(),
        }
    }
}

impl MemberMetadata {
    /// Decodes a member of a group whose metadata has the given schema version.
    ///
    /// The subscription and the assignment each lie in a blob of announced length and
    /// are decoded from the bytes of that blob alone.
    pub fn try_from(parser: &mut BytesParser, schema_version: i16) -> (r: Result<Self, KonsumerOffsetsError>)
        requires
            reads_big_endian(*old(parser)),
        ensures
            reads_big_endian(*final(parser)),
            decoded(r, unread(*final(parser)), read_member(schema_version, unread(*old(parser)))),
    {
        proof {
            reveal(read_blob);
        }
        let id = parse_str(parser)?;
        let group_instance_id = if schema_version >= 3 {
            parse_str(parser)?
        } else {
            String::new()
        };
        let client_id = parse_str(parser)?;
        let client_host = parse_str(parser)?;
        let rebalance_timeout: i32 = if schema_version >= 1 {
            parse_i32(parser)?
        } else {
            0
        };
        let session_timeout: i32 = parse_i32(parser)?;

        let subscription_len: i32 = parse_i32(parser)?;
        if subscription_len < 0 {
            return Err(KonsumerOffsetsError::InsufficientData);
        }
        let subscription = match parser.from_slice(subscription_len as usize) {
            Ok(mut blob) => ConsumerProtocolSubscription::try_from(&mut blob)?,
            Err(_) => {
                return Err(KonsumerOffsetsError::InsufficientData);
            },
        };

        let assignment_len: i32 = parse_i32(parser)?;
        if assignment_len < 0 {
            return Err(KonsumerOffsetsError::InsufficientData);
        }
        let assignment = match parser.from_slice(assignment_len as usize) {
            Ok(mut blob) => ConsumerProtocolAssignment::try_from(&mut blob)?,
            Err(_) => {
                return Err(KonsumerOffsetsError::InsufficientData);
            },
        };

        Ok(
            MemberMetadata {
                id,
                group_instance_id,
                client_id,
                client_host,
                rebalance_timeout,
                session_timeout,
                subscription,
                assignment,
            },
        )
    }
}

/// Reads the list of a group's members: an `i32` count, then that many members.
#[verifier::loop_isolation(false)]
fn parse_members(parser: &mut BytesParser, schema_version: i16) -> (r: Result<
    Vec<MemberMetadata>,
    KonsumerOffsetsError,
>)
    requires
        reads_big_endian(*old(parser)),
    ensures
        reads_big_endian(*final(parser)),
        decoded(r, unread(*final(parser)), read_list(member_reader(schema_version), unread(*old(parser)))),
{
    proof {
        reveal(read_list);
    }
    let count: i32 = parse_i32(parser)?;
    let mut members: Vec<MemberMetadata> = Vec::new();
    let ghost start = unread(*parser);
    let ghost item = member_reader(schema_version);
    let mut i: i32 = 0;
    proof {
        lemma_after_nothing(read_many(item, count as nat, start));
        assert(members.deep_view() =~= Seq::empty());
    }
    while i < count
        invariant
            0 <= i,
            count > 0 ==> i <= count,
            reads_big_endian(*parser),
            count > 0 ==> after(members.deep_view(), read_many(item, (count - i) as nat, unread(*parser)))
                == read_many(item, count as nat, start),
            count <= 0 ==> members.deep_view() =~= Seq::empty() && unread(*parser) == start,
        decreases count - i,
    {
        proof {
            lemma_read_many_step(item, members.deep_view(), (count - i) as nat, unread(*parser));
        }
        let ghost before = members.deep_view();
        let member = MemberMetadata::try_from(parser, schema_version)?;
        let ghost added = member@;
        members.push(member);
        assert(members.deep_view() =~= before.push(added));
        i += 1;
    }
    proof {
        lemma_read_many_done(item, members.deep_view(), unread(*parser));
    }
    Ok(members)
}

/// The state of a consumer group: its protocol, its generation, its leader and its
/// members.
///
/// The fields marked (key) come from the key of the message, those marked (payload)
/// from its payload. A message without payload is a tombstone: it asks for the removal
/// of its key, and its payload fields keep their default values.
#[derive(Debug, Clone, Eq, PartialEq)]
pub struct GroupMetadata {
    /// (key) The tag that the key starts with: `2` for a group's metadata.
    pub message_version: i16,
    /// (key) The consumer group.
    pub group: String,
    /// Whether the message had no payload.
    pub is_tombstone: bool,
    /// (payload) The schema version, which decides the fields that follow: `0..=3`.
    pub schema_version: i16,
    /// (payload) The kind of protocol that the group uses: `consumer` or `connect`.
    pub protocol_type: String,
    /// (payload) The generation of the group, which grows as its members change.
    pub generation: i32,
    /// (payload) The protocol that the group uses: the name of an assignor.
    pub protocol: String,
    /// (payload) The identifier of the member that leads the group.
    pub leader: String,
    /// (payload) When this state was recorded, in milliseconds; `-1` where the schema
    /// has none (before version 2).
    pub current_state_timestamp: i64,
    /// (payload) The members of the group, in the order of the payload.
    pub members: Vec<MemberMetadata>,
}

/// A [`GroupMetadata`] with its text and its members as sequences.
pub struct GroupMetadataView {
    pub message_version: i16,
    pub group: Seq<char>,
    pub is_tombstone: bool,
    pub schema_version: i16,
    pub protocol_type: Seq<char>,
    pub generation: i32,
    pub protocol: Seq<char>,
    pub leader: Seq<char>,
    pub current_state_timestamp: i64,
    pub members: Seq<MemberMetadataView>,
}

impl View for GroupMetadata {
    type V = GroupMetadataView;

    open spec fn view(&self) -> GroupMetadataView {
        GroupMetadataView {
            message_version: self.message_version,
            group: self.group@,
            is_tombstone: self.is_tombstone,
            schema_version: self.schema_version,
            protocol_type: self.protocol_type@,
            generation: self.generation,
            protocol: self.protocol@,
            leader: self.leader@,
            current_state_timestamp: self.current_state_timestamp,
            members: self.members.deep_view(),
        }
    }
}

impl DeepView for GroupMetadata {
    type V = GroupMetadataView;

    open spec fn deep_view(&self) -> GroupMetadataView {
        self@
    }
}

impl GroupMetadataView {
    /// The record in which every number is zero, every text and list empty and the
    /// tombstone mark unset.
    pub open spec fn empty() -> GroupMetadataView {
        GroupMetadataView {
            message_version: 0,
            group: Seq::empty(),
            is_tombstone: false,
            schema_version: 0,
            protocol_type: Seq::empty(),
            generation: 0,
            protocol: Seq::empty(),
            leader: Seq::empty(),
            current_state_timestamp: 0,
            members: Seq::empty(),
        }
    }

    /// The tombstone for a key: the key's fields, and defaults for the payload's.
    pub open spec fn tombstone(message_version: i16, group: Seq<char>) -> GroupMetadataView {
        GroupMetadataView { message_version, group, is_tombstone: true, ..GroupMetadataView::empty() }
    }
}

/// Whether a schema version of a group metadata's payload is one that can be decoded.
pub open spec fn group_metadata_schema_supported(version: i16) -> bool {
    0 <= version <= 3
}

/// Reads the key of a group's metadata after its tag: the group. Yields the tombstone
/// for that key.
pub open spec fn read_group_metadata_key(message_version: i16, s: Seq<u8>) -> Reading<GroupMetadataView> {
    match read_str(s) {
        Err(e) => Err(e),
        Ok((group, s1)) => Ok((GroupMetadataView::tombstone(message_version, group), s1)),
    }
}

/// Reads the payload of a group's metadata into the record `key` that its key gave.
///
/// The fields come in this order: the schema version; the protocol type; the
/// generation; the protocol; the leader; the timestamp of the state, from version 2
/// on; the list of members, each read at this payload's schema version.
pub open spec fn read_group_metadata_payload(key: GroupMetadataView, s: Seq<u8>) -> Reading<GroupMetadataView> {
    match read_i16(s) {
        Err(e) => Err(e),
        Ok((version, s1)) => if !group_metadata_schema_supported(version) {
            Err(ErrorView::UnsupportedGroupMetadataSchema(version))
        } else {
            match read_str(s1) {
                Err(e) => Err(e),
                Ok((protocol_type, s2)) => match read_i32(s2) {
                    Err(e) => Err(e),
                    Ok((generation, s3)) => match read_str(s3) {
                        Err(e) => Err(e),
                        Ok((protocol, s4)) => match read_str(s4) {
                            Err(e) => Err(e),
                            Ok((leader, s5)) => match read_i64_if(version >= 2, -1i64, s5) {
                                Err(e) => Err(e),
                                Ok((current_state_timestamp, s6)) => match read_list(member_reader(version), s6) {
                                    Err(e) => Err(e),
                                    Ok((members, s7)) => Ok(
                                        (
                                            GroupMetadataView {
                                                is_tombstone: false,
                                                schema_version: version,
                                                protocol_type,
                                                generation,
                                                protocol,
                                                leader,
                                                current_state_timestamp,
                                                members,
                                                ..key
                                            },
                                            s7,
                                        ),
                                    ),
                                },
                            },
                        },
                    },
                },
            }
        },
    }
}

impl Default for GroupMetadata {
    /// The record in which every number is zero, every text and list empty and the
    /// tombstone mark unset.
    fn default() -> (r: Self)
        ensures
            r@ == GroupMetadataView::empty(),
    {
        let r = GroupMetadata {
            message_version: 0,
            group: String::new(),
            is_tombstone: false,
            schema_version: 0,
            protocol_type: String::new(),
            generation: 0,
            protocol: String::new(),
            leader: String::new(),
            current_state_timestamp: 0,
            members: Vec::new(),
        };
        assert(r.members.deep_view() =~= Seq::empty());
        r
    }
}

impl GroupMetadata {
    /// Decodes the key of a group's metadata, after its tag `message_version`, into
    /// the tombstone for that key.
    pub fn try_from(parser: &mut BytesParser, message_version: i16) -> (r: Result<Self, KonsumerOffsetsError>)
        requires
            reads_big_endian(*old(parser)),
        ensures
            reads_big_endian(*final(parser)),
            decoded(r, unread(*final(parser)), read_group_metadata_key(message_version, unread(*old(parser)))),
    {
        let group = parse_str(parser)?;
        let r = GroupMetadata {
            message_version,
            group,
            is_tombstone: true,
            schema_version: 0,
            protocol_type: String::new(),
            generation: 0,
            protocol: String::new(),
            leader: String::new(),
            current_state_timestamp: 0,
            members: Vec::new(),
        };
        assert(r.members.deep_view() =~= Seq::empty());
        Ok(r)
    }

    /// Decodes the payload of a group's metadata into this record, which stops being a
    /// tombstone. On failure the record is left as it was.
    pub fn parse_payload(&mut self, parser: &mut BytesParser) -> (r: Result<(), KonsumerOffsetsError>)
        requires
            reads_big_endian(*old(parser)),
        ensures
            reads_big_endian(*final(parser)),
            filled(
                r,
                *old(self),
                *final(self),
                unread(*final(parser)),
                read_group_metadata_payload(old(self)@, unread(*old(parser))),
            ),
    {
        let schema_version: i16 = parse_i16(parser)?;
        if schema_version < 0 || schema_version > 3 {
            return Err(KonsumerOffsetsError::UnsupportedGroupMetadataSchema(schema_version));
        }
        let protocol_type = parse_str(parser)?;
        let generation: i32 = parse_i32(parser)?;
        let protocol = parse_str(parser)?;
        let leader = parse_str(parser)?;
        let current_state_timestamp: i64 = if schema_version >= 2 {
            parse_i64(parser)?
        } else {
            -1
        };
        let members = parse_members(parser, schema_version)?;
        self.is_tombstone = false;
        self.schema_version = schema_version;
        self.protocol_type = protocol_type;
        self.generation = generation;
        self.protocol = protocol;
        self.leader = leader;
        self.current_state_timestamp = current_state_timestamp;
        self.members = members;
        Ok(())
    }
}

/// At a version above 3 a topic with its partitions cannot be decoded, whatever the
/// bytes: the failure names the structure, the version and the subscription as the
/// structure that holds it.
pub proof fn lemma_topic_partitions_beyond_version_3(version: i16, s: Seq<u8>)
    requires
        version > 3,
    ensures
        read_topic_partitions(version, s) == Err::<(TopicPartitionsView, Seq<u8>), ErrorView>(
            ErrorView::UnableToParseForVersion("TopicPartitions"@, version, "ConsumerProtocolSubscription"@),
        ),
{
}

/// A decoded payload of a group's metadata keeps the key's fields and stops being a
/// tombstone; its schema version is the `i16` that the payload starts with and is one
/// of 0 to 3; before version 2 the timestamp of the state is `-1`.
pub proof fn lemma_group_payload_header(key: GroupMetadataView, p: Seq<u8>)
    ensures
        read_group_metadata_payload(key, p) matches Ok((g, rest)) ==> {
            &&& g.message_version == key.message_version
            &&& g.group == key.group
            &&& !g.is_tombstone
            &&& g.schema_version == be_i16(p)
            &&& 0 <= g.schema_version <= 3
            &&& g.schema_version < 2 ==> g.current_state_timestamp == -1
        },
{
}

/// A payload whose schema version is outside 0 to 3 is refused with that version.
pub proof fn lemma_group_payload_schema_unsupported(key: GroupMetadataView, p: Seq<u8>)
    requires
        p.len() >= 2,
        !(0 <= be_i16(p) <= 3),
    ensures
        read_group_metadata_payload(key, p) == Err::<(GroupMetadataView, Seq<u8>), ErrorView>(
            ErrorView::UnsupportedGroupMetadataSchema(be_i16(p)),
        ),
{
}

/// Before version 1 of the group's schema a member has no rebalance timeout of its
/// own, and before version 3 no instance identifier: they are `0` and empty.
pub proof fn lemma_member_defaults(schema_version: i16, s: Seq<u8>)
    ensures
        read_member(schema_version, s) matches Ok((m, rest)) ==> (schema_version < 1 ==> m.rebalance_timeout
            == 0) && (schema_version < 3 ==> m.group_instance_id == Seq::<char>::empty()),
{
}

/// A decoded subscription has a version from 0 to 3, the `i16` that it starts with.
/// Before version 1 it owns no partitions, before version 2 its generation is `-1`,
/// and before version 3 it has no rack.
pub proof fn lemma_subscription_defaults(s: Seq<u8>)
    ensures
        read_subscription(s) matches Ok((v, rest)) ==> {
            &&& v.schema_version == be_i16(s)
            &&& 0 <= v.schema_version <= 3
            &&& v.schema_version < 1 ==> v.owned_topic_partitions == Seq::<TopicPartitionsView>::empty()
            &&& v.schema_version < 2 ==> v.generation_id == -1
            &&& v.schema_version < 3 ==> v.rack_id == Seq::<char>::empty()
        },
{
}

/// A subscription or an assignment whose version is outside 0 to 3 is refused with
/// that version, each with its own failure.
pub proof fn lemma_consumer_protocol_version_unsupported(s: Seq<u8>)
    requires
        s.len() >= 2,
        !(0 <= be_i16(s) <= 3),
    ensures
        read_subscription(s) == Err::<(ConsumerProtocolSubscriptionView, Seq<u8>), ErrorView>(
            ErrorView::UnsupportedConsumerProtocolSubscriptionVersion(be_i16(s)),
        ),
        read_assignment(s) == Err::<(ConsumerProtocolAssignmentView, Seq<u8>), ErrorView>(
            ErrorView::UnsupportedConsumerProtocolAssignmentVersion(be_i16(s)),
        ),
{
}

/// One topic with its partitions, and one sequence of bytes in place of what follows.
proof fn lemma_topic_partitions_framed(version: i16, s: Seq<u8>, t: Seq<u8>)
    requires
        read_topic_partitions(version, s) is Ok,
    ensures
        framed(topic_partitions_reader(version), s, t),
{
    let (value, rest) = read_topic_partitions(version, s)->Ok_0;
    let c = s.len() - rest.len();
    lemma_str_reader_frames();
    lemma_i32_reader_frames();
    lemma_list_readers_frame(true, i32_reader());
    assert(s.skip(0) =~= s);
    let s1 = read_str(s)->Ok_0.1;
    let s2 = read_list(i32_reader(), s1)->Ok_0.1;
    assert(s2 == rest);
    let b1 = s.len() - s1.len();
    lemma_field(str_reader(), s, 0, c, t);
    lemma_field(list_reader(i32_reader()), s, b1, c, t);
    assert(0 <= b1 <= c <= s.len());
    lemma_record_bounds(s, c, t);
    let u = s.take(c) + t;
    assert(read_str(u) == Ok::<(Seq<char>, Seq<u8>), ErrorView>((value.topic, s.subrange(b1, c) + t)));
    assert(read_list(i32_reader(), s.subrange(b1, c) + t) == Ok::<(Seq<i32>, Seq<u8>), ErrorView>(
        (value.partitions, t),
    ));
}

/// Decoding a topic with its partitions consumes the bytes of the topic and of the
/// list, and depends on no byte after them.
pub proof fn lemma_topic_partitions_reader_frames(version: i16)
    ensures
        frames(topic_partitions_reader(version)),
{
    assert forall|s: Seq<u8>, t: Seq<u8>| #[trigger] framed(topic_partitions_reader(version), s, t) by {
        if read_topic_partitions(version, s) is Ok {
            lemma_topic_partitions_framed(version, s, t);
        }
    }
}

/// One subscription, and one sequence of bytes in place of what follows it.
proof fn lemma_subscription_framed(s: Seq<u8>, t: Seq<u8>)
    requires
        read_subscription(s) is Ok,
    ensures
        framed(subscription_reader(), s, t),
{
    let (value, rest) = read_subscription(s)->Ok_0;
    let c = s.len() - rest.len();
    let version = value.schema_version;
    lemma_i16_reader_frames();
    lemma_str_reader_frames();
    lemma_byte_array_reader_frames();
    lemma_topic_partitions_reader_frames(version);
    lemma_list_readers_frame(true, str_reader());
    lemma_list_readers_frame(version >= 1, topic_partitions_reader(version));
    lemma_optional_readers_frame(version >= 2, -1i32, -1i64);
    lemma_optional_readers_frame(version >= 3, -1i32, -1i64);
    assert(s.skip(0) =~= s);
    let s1 = read_i16(s)->Ok_0.1;
    let s2 = read_list(str_reader(), s1)->Ok_0.1;
    let s3 = read_byte_array(s2)->Ok_0.1;
    let s4 = read_list_if(version >= 1, topic_partitions_reader(version), s3)->Ok_0.1;
    let s5 = read_i32_if(version >= 2, -1i32, s4)->Ok_0.1;
    let s6 = read_str_if(version >= 3, s5)->Ok_0.1;
    assert(s6 == rest);
    let b1 = s.len() - s1.len();
    let b2 = s.len() - s2.len();
    let b3 = s.len() - s3.len();
    let b4 = s.len() - s4.len();
    let b5 = s.len() - s5.len();
    lemma_field(i16_reader(), s, 0, c, t);
    lemma_field(list_reader(str_reader()), s, b1, c, t);
    lemma_field(byte_array_reader(), s, b2, c, t);
    lemma_field(list_if_reader(version >= 1, topic_partitions_reader(version)), s, b3, c, t);
    lemma_field(i32_if_reader(version >= 2, -1i32), s, b4, c, t);
    lemma_field(str_if_reader(version >= 3), s, b5, c, t);
    assert(0 <= b1 <= b2 <= b3 <= b4 <= b5 <= c <= s.len());
    lemma_record_bounds(s, c, t);
    let u = s.take(c) + t;
    assert(read_i16(u) == Ok::<(i16, Seq<u8>), ErrorView>((version, s.subrange(b1, c) + t)));
    assert(read_list(str_reader(), s.subrange(b1, c) + t) == Ok::<(Seq<Seq<char>>, Seq<u8>), ErrorView>(
        (value.subscribed_topics, s.subrange(b2, c) + t),
    ));
    assert(read_byte_array(s.subrange(b2, c) + t) == Ok::<(Seq<u8>, Seq<u8>), ErrorView>(
        (value.user_data, s.subrange(b3, c) + t),
    ));
    assert(read_list_if(version >= 1, topic_partitions_reader(version), s.subrange(b3, c) + t) == Ok::<
        (Seq<TopicPartitionsView>, Seq<u8>),
        ErrorView,
    >((value.owned_topic_partitions, s.subrange(b4, c) + t)));
    assert(read_i32_if(version >= 2, -1i32, s.subrange(b4, c) + t) == Ok::<(i32, Seq<u8>), ErrorView>(
        (value.generation_id, s.subrange(b5, c) + t),
    ));
    assert(read_str_if(version >= 3, s.subrange(b5, c) + t) == Ok::<(Seq<char>, Seq<u8>), ErrorView>(
        (value.rack_id, t),
    ));
    assert(read_subscription(u) == Ok::<(ConsumerProtocolSubscriptionView, Seq<u8>), ErrorView>((value, t)));
}

/// Decoding a subscription consumes the bytes of the fields that its version has, and
/// depends on no byte after them.
pub proof fn lemma_subscription_reader_frames()
    ensures
        frames(subscription_reader()),
{
    assert forall|s: Seq<u8>, t: Seq<u8>| #[trigger] framed(subscription_reader(), s, t) by {
        if read_subscription(s) is Ok {
            lemma_subscription_framed(s, t);
        }
    }
}

/// One assignment, and one sequence of bytes in place of what follows it.
proof fn lemma_assignment_framed(s: Seq<u8>, t: Seq<u8>)
    requires
        read_assignment(s) is Ok,
    ensures
        framed(assignment_reader(), s, t),
{
    let (value, rest) = read_assignment(s)->Ok_0;
    let c = s.len() - rest.len();
    let version = value.schema_version;
    lemma_i16_reader_frames();
    lemma_byte_array_reader_frames();
    lemma_topic_partitions_reader_frames(version);
    lemma_list_readers_frame(true, topic_partitions_reader(version));
    assert(s.skip(0) =~= s);
    let s1 = read_i16(s)->Ok_0.1;
    let s2 = read_list(topic_partitions_reader(version), s1)->Ok_0.1;
    let s3 = read_byte_array(s2)->Ok_0.1;
    assert(s3 == rest);
    let b1 = s.len() - s1.len();
    let b2 = s.len() - s2.len();
    lemma_field(i16_reader(), s, 0, c, t);
    lemma_field(list_reader(topic_partitions_reader(version)), s, b1, c, t);
    lemma_field(byte_array_reader(), s, b2, c, t);
    assert(0 <= b1 <= b2 <= c <= s.len());
    lemma_record_bounds(s, c, t);
    let u = s.take(c) + t;
    assert(read_i16(u) == Ok::<(i16, Seq<u8>), ErrorView>((version, s.subrange(b1, c) + t)));
    assert(read_list(topic_partitions_reader(version), s.subrange(b1, c) + t) == Ok::<
        (Seq<TopicPartitionsView>, Seq<u8>),
        ErrorView,
    >((value.assigned_topic_partitions, s.subrange(b2, c) + t)));
    assert(read_byte_array(s.subrange(b2, c) + t) == Ok::<(Seq<u8>, Seq<u8>), ErrorView>((value.user_data, t)));
}

/// Decoding an assignment consumes the bytes of its fields, and depends on no byte
/// after them.
pub proof fn lemma_assignment_reader_frames()
    ensures
        frames(assignment_reader()),
{
    assert forall|s: Seq<u8>, t: Seq<u8>| #[trigger] framed(assignment_reader(), s, t) by {
        if read_assignment(s) is Ok {
            lemma_assignment_framed(s, t);
        }
    }
}

/// One member, and one sequence of bytes in place of what follows it.
proof fn lemma_member_framed(schema_version: i16, s: Seq<u8>, t: Seq<u8>)
    requires
        read_member(schema_version, s) is Ok,
    ensures
        framed(member_reader(schema_version), s, t),
{
    let (value, rest) = read_member(schema_version, s)->Ok_0;
    let c = s.len() - rest.len();
    assert(s.skip(0) =~= s);
    let s1 = read_str(s)->Ok_0.1;
    let s2 = read_str_if(schema_version >= 3, s1)->Ok_0.1;
    let s3 = read_str(s2)->Ok_0.1;
    let s4 = read_str(s3)->Ok_0.1;
    let s5 = read_i32_if(schema_version >= 1, 0i32, s4)->Ok_0.1;
    let s6 = read_i32(s5)->Ok_0.1;
    let s7 = read_blob(subscription_reader(), s6)->Ok_0.1;
    let s8 = read_blob(assignment_reader(), s7)->Ok_0.1;
    assert(s8 == rest);
    let b1 = s.len() - s1.len();
    let b2 = s.len() - s2.len();
    let b3 = s.len() - s3.len();
    let b4 = s.len() - s4.len();
    let b5 = s.len() - s5.len();
    let b6 = s.len() - s6.len();
    let b7 = s.len() - s7.len();
    let id = str_reader();
    let instance = str_if_reader(schema_version >= 3);
    let rebalance = i32_if_reader(schema_version >= 1, 0i32);
    let session = i32_reader();
    let subscription = blob_reader(subscription_reader());
    let assignment = blob_reader(assignment_reader());
    assert(frames(id) && frames(instance) && frames(rebalance) && frames(session) && frames(subscription)
        && frames(assignment)) by {
        lemma_str_reader_frames();
        lemma_i32_reader_frames();
        lemma_optional_readers_frame(schema_version >= 3, 0i32, 0i64);
        lemma_optional_readers_frame(schema_version >= 1, 0i32, 0i64);
        lemma_blob_reader_frames(subscription_reader());
        lemma_blob_reader_frames(assignment_reader());
    }
    assert(0 <= b1 <= s.len() && s1 == s.skip(b1)) by {
        lemma_field(id, s, 0, c, t);
    }
    assert(b1 <= b2 <= s.len() && s2 == s.skip(b2)) by {
        lemma_field(instance, s, b1, c, t);
    }
    assert(b2 <= b3 <= s.len() && s3 == s.skip(b3)) by {
        lemma_field(id, s, b2, c, t);
    }
    assert(b3 <= b4 <= s.len() && s4 == s.skip(b4)) by {
        lemma_field(id, s, b3, c, t);
    }
    assert(b4 <= b5 <= s.len() && s5 == s.skip(b5)) by {
        lemma_field(rebalance, s, b4, c, t);
    }
    assert(b5 <= b6 <= s.len() && s6 == s.skip(b6)) by {
        lemma_field(session, s, b5, c, t);
    }
    assert(b6 <= b7 <= s.len() && s7 == s.skip(b7)) by {
        lemma_field(subscription, s, b6, c, t);
    }
    assert(b7 <= c <= s.len() && s8 == s.skip(c)) by {
        lemma_field(assignment, s, b7, c, t);
    }
    let u = s.take(c) + t;
    let u1 = s.subrange(b1, c) + t;
    let u2 = s.subrange(b2, c) + t;
    let u3 = s.subrange(b3, c) + t;
    let u4 = s.subrange(b4, c) + t;
    let u5 = s.subrange(b5, c) + t;
    let u6 = s.subrange(b6, c) + t;
    let u7 = s.subrange(b7, c) + t;
    assert(read_str(u) == Ok::<(Seq<char>, Seq<u8>), ErrorView>((value.id, u1))) by {
        lemma_field(id, s, 0, c, t);
        lemma_record_bounds(s, c, t);
    }
    assert(read_str_if(schema_version >= 3, u1) == Ok::<(Seq<char>, Seq<u8>), ErrorView>(
        (value.group_instance_id, u2),
    )) by {
        lemma_field(instance, s, b1, c, t);
    }
    assert(read_str(u2) == Ok::<(Seq<char>, Seq<u8>), ErrorView>((value.client_id, u3))) by {
        lemma_field(id, s, b2, c, t);
    }
    assert(read_str(u3) == Ok::<(Seq<char>, Seq<u8>), ErrorView>((value.client_host, u4))) by {
        lemma_field(id, s, b3, c, t);
    }
    assert(read_i32_if(schema_version >= 1, 0i32, u4) == Ok::<(i32, Seq<u8>), ErrorView>(
        (value.rebalance_timeout, u5),
    )) by {
        lemma_field(rebalance, s, b4, c, t);
    }
    assert(read_i32(u5) == Ok::<(i32, Seq<u8>), ErrorView>((value.session_timeout, u6))) by {
        lemma_field(session, s, b5, c, t);
    }
    assert(read_blob(subscription_reader(), u6) == Ok::<(ConsumerProtocolSubscriptionView, Seq<u8>), ErrorView>(
        (value.subscription, u7),
    )) by {
        lemma_field(subscription, s, b6, c, t);
    }
    assert(read_blob(assignment_reader(), u7) == Ok::<(ConsumerProtocolAssignmentView, Seq<u8>), ErrorView>(
        (value.assignment, t),
    )) by {
        lemma_field(assignment, s, b7, c, t);
        lemma_record_bounds(s, c, t);
    }
    assert(read_member(schema_version, u) == Ok::<(MemberMetadataView, Seq<u8>), ErrorView>((value, t)));
}

/// Decoding a member consumes the bytes of its fields, each blob to the end that its
/// length gives, and depends on no byte after them.
pub proof fn lemma_member_reader_frames(schema_version: i16)
    ensures
        frames(member_reader(schema_version)),
{
    assert forall|s: Seq<u8>, t: Seq<u8>| #[trigger] framed(member_reader(schema_version), s, t) by {
        if read_member(schema_version, s) is Ok {
            lemma_member_framed(schema_version, s, t);
        }
    }
}

/// The reader of a group metadata's key after the tag `message_version`.
pub open spec fn group_metadata_key_reader(message_version: i16) -> spec_fn(Seq<u8>) -> Reading<
    GroupMetadataView,
> {
    |s: Seq<u8>| read_group_metadata_key(message_version, s)
}

/// The reader of a group metadata's payload into the record `key`.
pub open spec fn group_metadata_payload_reader(key: GroupMetadataView) -> spec_fn(Seq<u8>) -> Reading<
    GroupMetadataView,
> {
    |s: Seq<u8>| read_group_metadata_payload(key, s)
}

/// Decoding the key of a group's metadata consumes the bytes of the group's name and
/// depends on no byte after them.
pub proof fn lemma_group_metadata_key_frames(message_version: i16)
    ensures
        frames(group_metadata_key_reader(message_version)),
{
    lemma_str_reader_frames();
    assert forall|s: Seq<u8>, t: Seq<u8>| #[trigger]
        framed(group_metadata_key_reader(message_version), s, t) by {
        if let Ok((record, rest)) = read_group_metadata_key(message_version, s) {
            assert(framed(str_reader(), s, t));
        }
    }
}

/// One payload, and one sequence of bytes in place of what follows it.
proof fn lemma_group_metadata_payload_framed(key: GroupMetadataView, s: Seq<u8>, t: Seq<u8>)
    requires
        read_group_metadata_payload(key, s) is Ok,
    ensures
        framed(group_metadata_payload_reader(key), s, t),
{
    let (record, rest) = read_group_metadata_payload(key, s)->Ok_0;
    let c = s.len() - rest.len();
    let version = record.schema_version;
    assert(s.skip(0) =~= s);
    let s1 = read_i16(s)->Ok_0.1;
    let s2 = read_str(s1)->Ok_0.1;
    let s3 = read_i32(s2)->Ok_0.1;
    let s4 = read_str(s3)->Ok_0.1;
    let s5 = read_str(s4)->Ok_0.1;
    let s6 = read_i64_if(version >= 2, -1i64, s5)->Ok_0.1;
    let s7 = read_list(member_reader(version), s6)->Ok_0.1;
    assert(s7 == rest);
    let b1 = s.len() - s1.len();
    let b2 = s.len() - s2.len();
    let b3 = s.len() - s3.len();
    let b4 = s.len() - s4.len();
    let b5 = s.len() - s5.len();
    let b6 = s.len() - s6.len();
    let schema = i16_reader();
    let text = str_reader();
    let generation = i32_reader();
    let timestamp = i64_if_reader(version >= 2, -1i64);
    let members = list_reader(member_reader(version));
    assert(frames(schema) && frames(text) && frames(generation) && frames(timestamp) && frames(members)) by {
        lemma_i16_reader_frames();
        lemma_i32_reader_frames();
        lemma_str_reader_frames();
        lemma_optional_readers_frame(version >= 2, -1i32, -1i64);
        lemma_member_reader_frames(version);
        lemma_list_readers_frame(true, member_reader(version));
    }
    assert(0 <= b1 <= s.len() && s1 == s.skip(b1)) by {
        lemma_field(schema, s, 0, c, t);
    }
    assert(b1 <= b2 <= s.len() && s2 == s.skip(b2)) by {
        lemma_field(text, s, b1, c, t);
    }
    assert(b2 <= b3 <= s.len() && s3 == s.skip(b3)) by {
        lemma_field(generation, s, b2, c, t);
    }
    assert(b3 <= b4 <= s.len() && s4 == s.skip(b4)) by {
        lemma_field(text, s, b3, c, t);
    }
    assert(b4 <= b5 <= s.len() && s5 == s.skip(b5)) by {
        lemma_field(text, s, b4, c, t);
    }
    assert(b5 <= b6 <= s.len() && s6 == s.skip(b6)) by {
        lemma_field(timestamp, s, b5, c, t);
    }
    assert(b6 <= c <= s.len() && s7 == s.skip(c)) by {
        lemma_field(members, s, b6, c, t);
    }
    let u = s.take(c) + t;
    let u1 = s.subrange(b1, c) + t;
    let u2 = s.subrange(b2, c) + t;
    let u3 = s.subrange(b3, c) + t;
    let u4 = s.subrange(b4, c) + t;
    let u5 = s.subrange(b5, c) + t;
    let u6 = s.subrange(b6, c) + t;
    assert(read_i16(u) == Ok::<(i16, Seq<u8>), ErrorView>((version, u1))) by {
        lemma_field(schema, s, 0, c, t);
        lemma_record_bounds(s, c, t);
    }
    assert(read_str(u1) == Ok::<(Seq<char>, Seq<u8>), ErrorView>((record.protocol_type, u2))) by {
        lemma_field(text, s, b1, c, t);
    }
    assert(read_i32(u2) == Ok::<(i32, Seq<u8>), ErrorView>((record.generation, u3))) by {
        lemma_field(generation, s, b2, c, t);
    }
    assert(read_str(u3) == Ok::<(Seq<char>, Seq<u8>), ErrorView>((record.protocol, u4))) by {
        lemma_field(text, s, b3, c, t);
    }
    assert(read_str(u4) == Ok::<(Seq<char>, Seq<u8>), ErrorView>((record.leader, u5))) by {
        lemma_field(text, s, b4, c, t);
    }
    assert(read_i64_if(version >= 2, -1i64, u5) == Ok::<(i64, Seq<u8>), ErrorView>(
        (record.current_state_timestamp, u6),
    )) by {
        lemma_field(timestamp, s, b5, c, t);
    }
    assert(read_list(member_reader(version), u6) == Ok::<(Seq<MemberMetadataView>, Seq<u8>), ErrorView>(
        (record.members, t),
    )) by {
        lemma_field(members, s, b6, c, t);
        lemma_record_bounds(s, c, t);
    }
    assert(read_group_metadata_payload(key, u) == Ok::<(GroupMetadataView, Seq<u8>), ErrorView>((record, t)));
}

/// Decoding the payload of a group's metadata consumes exactly the bytes of the
/// fields that its schema version has, members and their blobs included. What is left
/// is the input without those bytes; and the same bytes, followed by anything else,
/// give the same record and leave what follows: nothing beyond the last member is
/// read.
pub proof fn lemma_group_metadata_payload_frames(key: GroupMetadataView)
    ensures
        frames(group_metadata_payload_reader(key)),
{
    assert forall|s: Seq<u8>, t: Seq<u8>| #[trigger] framed(group_metadata_payload_reader(key), s, t) by {
        if read_group_metadata_payload(key, s) is Ok {
            lemma_group_metadata_payload_framed(key, s, t);
        }
    }
}

} // verus!
