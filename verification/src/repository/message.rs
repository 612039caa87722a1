//! Topics of the message broker, the settings of its clients, and what a
//! message that was received or sent comes to.

use vstd::prelude::*;

use crate::repository::errors::{RepoError, RepoErrorView};

verus! {

#[derive(Debug, Clone, Copy, PartialEq, Eq)]
pub enum Topic {
    PlacedOrders,
}

/// The broker's name of a topic.
pub open spec fn topic_name(t: Topic) -> Seq<char> {
    match t {
        Topic::PlacedOrders => "placed-orders"@,
    }
}

/// A list of client settings, each a key and a value, taken by their characters.
pub open spec fn settings_view(s: Seq<(String, String)>) -> Seq<(Seq<char>, Seq<char>)> {
    s.map_values(|p: (String, String)| (p.0@, p.1@))
}

/// The settings of a consumer of the brokers `brokers`.
pub open spec fn consumer_settings_spec(brokers: Seq<char>) -> Seq<(Seq<char>, Seq<char>)> {
    seq![
        ("group.id"@, "asdf"@),
        ("bootstrap.servers"@, brokers),
        ("enable.partition.eof"@, "false"@),
        ("session.timeout.ms"@, "6000"@),
        ("enable.auto.commit"@, "false"@),
    ]
}

/// The settings of a producer for the brokers `brokers`.
pub open spec fn producer_settings_spec(brokers: Seq<char>) -> Seq<(Seq<char>, Seq<char>)> {
    seq![("bootstrap.servers"@, brokers), ("message.timeout.ms"@, "5000"@)]
}

fn setting(key: &str, value: &str) -> (p: (String, String))
    ensures
        p.0@ == key@,
        p.1@ == value@,
{
    (String::from_str(key), String::from_str(value))
}

/// The settings with which a consumer of the brokers `brokers` is created:
/// one consumer group, no end-of-partition events, a session timeout of six
/// seconds and no automatic commits.
pub fn consumer_settings(brokers: &str) -> (s: Vec<(String, String)>)
    ensures
        settings_view(s@) == consumer_settings_spec(brokers@),
        s@.len() == 5,
        s@[1].0@ == "bootstrap.servers"@,
        s@[1].1@ == brokers@,
{
    let mut s: Vec<(String, String)> = Vec::new();
    s.push(setting("group.id", "asdf"));
    s.push(setting("bootstrap.servers", brokers));
    s.push(setting("enable.partition.eof", "false"));
    s.push(setting("session.timeout.ms", "6000"));
    s.push(setting("enable.auto.commit", "false"));
    assert(settings_view(s@) =~= consumer_settings_spec(brokers@));
    s
}

/// The settings with which a producer for the brokers `brokers` is created:
/// a message times out after five seconds.
pub fn producer_settings(brokers: &str) -> (s: Vec<(String, String)>)
    ensures
        settings_view(s@) == producer_settings_spec(brokers@),
        s@.len() == 2,
        s@[0].0@ == "bootstrap.servers"@,
        s@[0].1@ == brokers@,
{
    let mut s: Vec<(String, String)> = Vec::new();
    s.push(setting("bootstrap.servers", brokers));
    s.push(setting("message.timeout.ms", "5000"));
    assert(settings_view(s@) =~= producer_settings_spec(brokers@));
    s
}

/// Where and how a message is sent: its topic, its key, and how many seconds
/// the producer waits for it to be queued.
#[derive(Debug, PartialEq, Eq)]
pub struct OutgoingRecord {
    pub topic: String,
    pub key: String,
    pub timeout_secs: u64,
}

/// What the consumer handed out for one message.
#[derive(Debug, PartialEq, Eq)]
pub enum ReceivedMessage {
    /// The broker reported an error, with this description.
    BrokerError(String),
    /// The message had no payload.
    NoPayload,
    /// The payload was not valid UTF-8; the description of the decoding error.
    InvalidPayload(String),
    /// The payload, as text.
    Payload(String),
}

/// What a received message comes to: its payload, or the error that stands
/// for it.
pub open spec fn received_payload_spec(m: ReceivedMessage) -> Result<Seq<char>, RepoErrorView> {
    match m {
        ReceivedMessage::BrokerError(e) => Err(RepoErrorView::MessageBrokerError(e@)),
        ReceivedMessage::NoPayload => Err(RepoErrorView::DataError("message has no payload"@)),
        ReceivedMessage::InvalidPayload(e) => Err(RepoErrorView::MessageBrokerError(e@)),
        ReceivedMessage::Payload(p) => Ok(p@),
    }
}

/// The payload of a received message, or the error that stands for it.
pub fn received_payload(m: ReceivedMessage) -> (r: Result<String, RepoError>)
    ensures
        match r {
            Ok(p) => received_payload_spec(m) == Ok::<Seq<char>, RepoErrorView>(p@),
            Err(e) => received_payload_spec(m) == Err::<Seq<char>, RepoErrorView>(e@),
        },
        m is Payload <==> r is Ok,
        m matches ReceivedMessage::Payload(p) ==> (r matches Ok(q) && q@ == p@),
{
    match m {
        ReceivedMessage::BrokerError(e) => Err(RepoError::MessageBrokerError(e)),
        ReceivedMessage::NoPayload => Err(
            RepoError::DataError(String::from_str("message has no payload")),
        ),
        ReceivedMessage::InvalidPayload(e) => Err(RepoError::MessageBrokerError(e)),
        ReceivedMessage::Payload(p) => Ok(p),
    }
}

/// What sending `message` comes to, given the producer's delivery status:
/// the message itself once it was delivered (to a partition, at an offset),
/// or an error of the broker with the description of the failure.
pub fn delivery_result<M>(message: M, status: Result<(i32, i64), String>) -> (r: Result<M, RepoError>)
    ensures
        status is Ok ==> r == Ok::<M, RepoError>(message),
        status matches Err(e) ==> (r matches Err(err) && err@ == RepoErrorView::MessageBrokerError(e@)),
{
    match status {
        Ok(_) => Ok(message),
        Err(e) => Err(RepoError::MessageBrokerError(e)),
    }
}

impl Topic {
    /// The broker's name of the topic.
    pub fn value(self) -> (v: &'static str)
        ensures
            v@ == topic_name(self),
    {
        match self {
            Topic::PlacedOrders => "placed-orders",
        }
    }

    /// How a message is sent to this topic: under the key `todo`, with a
    /// queueing timeout of five seconds.
    pub fn record(self) -> (r: OutgoingRecord)
        ensures
            r.topic@ == topic_name(self),
            r.key@ == "todo"@,
            r.timeout_secs == 5,
    {
        OutgoingRecord {
            topic: String::from_str(self.value()),
            key: String::from_str("todo"),
            timeout_secs: 5,
        }
    }
}

/// A message with a payload is handed on as its payload, unchanged, whatever
/// it holds; only a message without a usable payload comes to an error.
pub proof fn law_payload_is_handed_on_unchanged(m: ReceivedMessage)
    ensures
        m matches ReceivedMessage::Payload(p) ==> received_payload_spec(m) == Ok::<
            Seq<char>,
            RepoErrorView,
        >(p@),
        received_payload_spec(m) is Err <==> !(m is Payload),
{
}

/// The brokers that a client is given are configured verbatim, as the value
/// of `bootstrap.servers`; every other setting is the same whatever the
/// brokers are.
pub proof fn law_brokers_are_configured_verbatim(brokers: Seq<char>, other: Seq<char>)
    ensures
        consumer_settings_spec(brokers).len() == 5,
        consumer_settings_spec(brokers)[1] == ("bootstrap.servers"@, brokers),
        forall|i: int|
            0 <= i < 5 && i != 1 ==> consumer_settings_spec(brokers)[i] == consumer_settings_spec(
                other,
            )[i],
        producer_settings_spec(brokers).len() == 2,
        producer_settings_spec(brokers)[0] == ("bootstrap.servers"@, brokers),
        producer_settings_spec(brokers)[1] == producer_settings_spec(other)[1],
{
}

} // verus!
