use vstd::prelude::*;
use crate::error::RecordStreamError;
use crate::tracker::{record_spec, OffsetTracker};
use rdkafka::config::ClientConfig;

verus! {

#[verifier::external_type_specification]
#[verifier::external_body]
pub struct ExClientConfig(ClientConfig);

/// The parameters that a client configuration holds, by name.
pub uninterp spec fn config_entries(c: ClientConfig) -> Map<Seq<char>, Seq<char>>;

/// Relies on rdkafka's `ClientConfig::new`: a configuration with no parameter set.
#[verifier::external_body]
fn config_new() -> (r: ClientConfig)
    ensures
        config_entries(r).dom() == Set::<Seq<char>>::empty(),
{
    ClientConfig::new()
}

/// Relies on rdkafka's `ClientConfig::set`: the parameter `key` takes `value`,
/// replacing any earlier value, and the others stay.
#[verifier::external_body]
fn config_set(c: &mut ClientConfig, key: &str, value: &str)
    ensures
        config_entries(*final(c)) == config_entries(*old(c)).insert(key@, value@),
{
    c.set(key, value);
}

/// The parameters that applying `settings` in order leaves in a configuration.
pub open spec fn applied(settings: Seq<(Seq<char>, Seq<char>)>) -> Map<Seq<char>, Seq<char>>
    decreases settings.len(),
{
    if settings.len() == 0 {
        Map::empty()
    } else {
        applied(settings.drop_last()).insert(settings.last().0, settings.last().1)
    }
}

/// The consumer group that every sink joins.
pub const CONSUMER_GROUP: &'static str = "star-agg";

/// The role a log client is made for.
#[derive(Debug, Clone, Copy, PartialEq, Eq, Structural)]
pub enum ClientRole {
    Producer,
    Consumer,
}

/// The settings of a log client, in the order in which they are applied.
pub open spec fn settings_spec(brokers: Seq<char>, plaintext: bool, role: ClientRole) -> Seq<(Seq<char>, Seq<char>)> {
    let base = seq![("bootstrap.servers"@, brokers)];
    let with_security = if plaintext {
        base.push(("security.protocol"@, "plaintext"@))
    } else {
        base
    };
    match role {
        ClientRole::Producer => with_security.push(("message.timeout.ms"@, "6000"@)),
        ClientRole::Consumer => with_security
            .push(("group.id"@, CONSUMER_GROUP@))
            .push(("enable.auto.commit"@, "false"@))
            .push(("session.timeout.ms"@, "6000"@)),
    }
}

pub open spec fn pairs_view(v: Seq<(String, String)>) -> Seq<(Seq<char>, Seq<char>)> {
    v.map_values(|p: (String, String)| (p.0@, p.1@))
}

/// The settings of a log client: the brokers, plaintext security when asked for,
/// and for a consumer the fixed group with automatic offset commit switched off.
pub fn client_settings(brokers: &str, plaintext: bool, role: ClientRole) -> (r: Vec<(String, String)>)
    ensures
        pairs_view(r@) == settings_spec(brokers@, plaintext, role),
{
    proof {
        reveal_strlit("bootstrap.servers");
        reveal_strlit("security.protocol");
        reveal_strlit("plaintext");
        reveal_strlit("message.timeout.ms");
        reveal_strlit("6000");
        reveal_strlit("group.id");
        reveal_strlit("star-agg");
        reveal_strlit("enable.auto.commit");
        reveal_strlit("false");
        reveal_strlit("session.timeout.ms");
    }
    let mut r: Vec<(String, String)> = Vec::new();
    r.push((String::from_str("bootstrap.servers"), String::from_str(brokers)));
    if plaintext {
        r.push((String::from_str("security.protocol"), String::from_str("plaintext")));
    }
    match role {
        ClientRole::Producer => {
            r.push((String::from_str("message.timeout.ms"), String::from_str("6000")));
        },
        ClientRole::Consumer => {
            r.push((String::from_str("group.id"), String::from_str(CONSUMER_GROUP)));
            r.push((String::from_str("enable.auto.commit"), String::from_str("false")));
            r.push((String::from_str("session.timeout.ms"), String::from_str("6000")));
        },
    }
    assert(pairs_view(r@) =~= settings_spec(brokers@, plaintext, role));
    r
}

/// A client configuration holding the settings of `client_settings`.
pub fn client_config(brokers: &str, plaintext: bool, role: ClientRole) -> (r: ClientConfig)
    ensures
        config_entries(r) == applied(settings_spec(brokers@, plaintext, role)),
{
    let settings = client_settings(brokers, plaintext, role);
    let ghost sv = pairs_view(settings@);
    let mut config = config_new();
    assert(config_entries(config) =~= applied(sv.take(0)));
    let mut i: usize = 0;
    while i < settings.len()
        invariant
            0 <= i <= settings@.len(),
            sv == pairs_view(settings@),
            sv == settings_spec(brokers@, plaintext, role),
            config_entries(config) == applied(sv.take(i as int)),
        decreases settings@.len() - i,
    {
        assert(sv.take(i + 1).drop_last() =~= sv.take(i as int));
        config_set(&mut config, settings[i].0.as_str(), settings[i].1.as_str());
        i = i + 1;
    }
    assert(sv.take(sv.len() as int) =~= sv);
    config
}

/// The text a received payload stands for: none reads as empty text, and one
/// that is not text is refused with the decoder's message.
pub open spec fn payload_text(payload: Option<Result<String, String>>) -> Result<Seq<char>, RecordStreamError> {
    match payload {
        None => Ok(Seq::empty()),
        Some(Ok(s)) => Ok(s@),
        Some(Err(m)) => Err(RecordStreamError::Deserialize(m)),
    }
}

/// The stream state that the log backend does not keep: the topic, the
/// capabilities it was made with, and the offsets consumed since construction.
pub struct KafkaRecordStream {
    topic: String,
    producing: bool,
    consuming: bool,
    tracker: OffsetTracker,
}

impl KafkaRecordStream {
    pub closed spec fn topic_view(&self) -> Seq<char> {
        self.topic@
    }

    pub closed spec fn offsets_view(&self) -> Map<(Seq<char>, i32), i64> {
        self.tracker@
    }

    pub closed spec fn producing_spec(&self) -> bool {
        self.producing
    }

    pub closed spec fn consuming_spec(&self) -> bool {
        self.consuming
    }

    pub closed spec fn wf(&self) -> bool {
        self.tracker.wf()
    }

    /// A stream on `topic` that may produce, consume, or both, with no offset tracked.
    pub fn new(enable_producer: bool, enable_consumer: bool, topic: String) -> (r: KafkaRecordStream)
        ensures
            r.wf(),
            r.topic_view() == topic@,
            r.producing_spec() == enable_producer,
            r.consuming_spec() == enable_consumer,
            r.offsets_view() == Map::<(Seq<char>, i32), i64>::empty(),
    {
        KafkaRecordStream { topic, producing: enable_producer, consuming: enable_consumer, tracker: OffsetTracker::new() }
    }

    /// The topic this stream reads or writes.
    pub fn topic(&self) -> (r: &str)
        ensures
            r@ == self.topic_view(),
    {
        self.topic.as_str()
    }

    /// Whether producing was enabled.
    pub fn can_produce(&self) -> (r: bool)
        ensures
            r == self.producing_spec(),
    {
        self.producing
    }

    /// Whether consuming was enabled.
    pub fn can_consume(&self) -> (r: bool)
        ensures
            r == self.consuming_spec(),
    {
        self.consuming
    }

    /// The offsets to commit, one per partition consumed from.
    pub fn offsets(&self) -> (r: &OffsetTracker)
        requires
            self.wf(),
        ensures
            r.wf(),
            r@ == self.offsets_view(),
    {
        &self.tracker
    }

    /// Takes a record received at `offset` of `partition` in `topic`: reads its
    /// payload as text, then records the position, and hands the text over.
    /// A payload that is not text is refused before anything is recorded.
    pub fn accept_message(
        &mut self,
        topic: &str,
        partition: i32,
        offset: i64,
        payload: Option<Result<String, String>>,
    ) -> (r: Result<String, RecordStreamError>)
        requires
            old(self).wf(),
        ensures
            final(self).wf(),
            final(self).topic_view() == old(self).topic_view(),
            final(self).producing_spec() == old(self).producing_spec(),
            final(self).consuming_spec() == old(self).consuming_spec(),
            payload_text(payload) is Err ==> r == Err::<String, RecordStreamError>(payload_text(payload)->Err_0)
                && final(self).offsets_view() == old(self).offsets_view(),
            payload_text(payload) is Ok && (offset < 0 || offset == i64::MAX) ==> r is Err && r->Err_0 is OffsetStore
                && final(self).offsets_view() == old(self).offsets_view(),
            payload_text(payload) is Ok && 0 <= offset < i64::MAX ==> r is Ok
                && r->Ok_0@ == payload_text(payload)->Ok_0
                && final(self).offsets_view() == record_spec(old(self).offsets_view(), (topic@, partition), offset),
    {
        let text = match payload {
            None => String::new(),
            Some(Ok(s)) => s,
            Some(Err(m)) => {
                return Err(RecordStreamError::Deserialize(m));
            },
        };
        match self.tracker.record(topic, partition, offset) {
            Ok(()) => Ok(text),
            Err(e) => Err(e),
        }
    }
}

} // verus!
