//! A node on the bus: how it finds others and topics, and what it reports.

use vstd::prelude::*;

use crate::config::texts;
use crate::text::{joined, same_text};

verus! {

/// The settings that every node has.
#[derive(Debug)]
pub struct CoreConfig {
    pub namespace: String,
}

impl Default for CoreConfig {
    fn default() -> (r: Self)
        ensures
            r.namespace@ == "robotics/sebeke"@,
    {
        CoreConfig { namespace: "robotics/sebeke".to_string() }
    }
}

/// A session on the bus.
#[derive(Debug)]
pub struct Session {}

/// A node that publishes under the common namespace.
#[derive(Debug)]
pub struct SebekeNode {
    pub session: Session,
    pub namespace: String,
}

impl SebekeNode {
    /// A node on a session.
    pub fn new(session: Session) -> (r: SebekeNode)
        ensures
            r.session == session,
            r.namespace@ == "robotics/sebeke"@,
    {
        SebekeNode { session, namespace: CoreConfig::default().namespace }
    }

    /// The topic that media are published on.
    pub fn media_path(&self, sub_path: &str) -> (r: String)
        ensures
            r@ == self.namespace@ + "/"@ + sub_path@,
    {
        let mut r = self.namespace.clone();
        r.append("/");
        r.append(sub_path);
        r
    }
}

/// What is reported when a session is there.
pub const SESSION_NOTICE: &'static str = "Session established: {session:?}";

/// What is reported when a subscription starts.
pub const SUBSCRIBER_NOTICE: &'static str = "Subscriber loop started for: {topic:?}";

/// A report of a node.
pub fn log_line(zid: &str, message: &str) -> (r: String)
    ensures
        r@ == "["@ + zid@ + "] "@ + message@,
{
    let mut r = joined("[", zid);
    r.append("] ");
    r.append(message);
    r
}

/// What the search for other nodes waits for.
#[derive(Debug, Clone, Copy, PartialEq, Eq, Structural)]
pub enum ProbeEvent {
    /// A node answers.
    Hello,
    /// No further answer can come.
    Closed,
    /// The time is over.
    TimedOut,
}

/// Whether another node was found; the first event decides.
pub fn probe_result(event: ProbeEvent) -> (r: bool)
    ensures
        r <==> event == ProbeEvent::Hello,
{
    match event {
        ProbeEvent::Hello => true,
        _ => false,
    }
}

/// Which topics are looked for: those under a prefix, or all.
pub fn topic_selector(prefix: Option<&str>) -> (r: String)
    ensures
        r@ == match prefix {
            Some(p) => p@,
            None => "**"@,
        },
{
    match prefix {
        Some(p) => p.to_string(),
        None => "**".to_string(),
    }
}

/// Topics with one more, behind the others; the same where it is there already.
pub open spec fn with_topic(topics: Seq<Seq<char>>, topic: Seq<char>) -> Seq<Seq<char>> {
    if topics.contains(topic) {
        topics
    } else {
        topics.push(topic)
    }
}

/// The topics that were found, each once.
#[derive(Debug)]
pub struct TopicSet {
    topics: Vec<String>,
}

impl TopicSet {
    /// The topics, in the order in which they were found first.
    pub closed spec fn view(&self) -> Seq<Seq<char>> {
        texts(self.topics@)
    }

    /// No topic occurs twice.
    pub open spec fn wf(&self) -> bool {
        self@.no_duplicates()
    }

    /// No topics.
    pub fn new() -> (r: TopicSet)
        ensures
            r.wf(),
            r@.len() == 0,
    {
        TopicSet { topics: Vec::new() }
    }

    /// Adds a topic, if it is not there.
    pub fn insert(&mut self, topic: String)
        requires
            old(self).wf(),
        ensures
            final(self).wf(),
            final(self)@ == if old(self)@.contains(topic@) {
                old(self)@
            } else {
                old(self)@.push(topic@)
            },
            final(self)@ == with_topic(old(self)@, topic@),
    {
        let mut i: usize = 0;
        while i < self.topics.len()
            invariant
                *self == *old(self),
                self.wf(),
                i <= self.topics.len(),
                forall|k: int| 0 <= k < i ==> #[trigger] self@[k] != topic@,
            decreases self.topics.len() - i,
        {
            if same_text(&self.topics[i], &topic) {
                assert(self@[i as int] == topic@);
                return;
            }
            i += 1;
        }
        let ghost before = self@;
        self.topics.push(topic);
        assert(self@ =~= before.push(topic@));
    }

    /// Adds the topic of a reply; a reply without one is passed over.
    pub fn reply(&mut self, topic: Option<String>)
        requires
            old(self).wf(),
        ensures
            final(self).wf(),
            final(self)@ == match topic {
                Some(t) => if old(self)@.contains(t@) {
                    old(self)@
                } else {
                    old(self)@.push(t@)
                },
                None => old(self)@,
            },
            topic matches Some(t) ==> final(self)@ == with_topic(old(self)@, t@),
    {
        if let Some(t) = topic {
            self.insert(t);
        }
    }

    /// The topics.
    pub fn into_topics(self) -> (r: Vec<String>)
        ensures
            texts(r@) == self@,
    {
        self.topics
    }
}

/// How a failed search for topics reads.
pub fn query_failure(detail: &str) -> (r: String)
    ensures
        r@ == "Failed to query liveliness: "@ + detail@,
{
    joined("Failed to query liveliness: ", detail)
}

/// How a failed subscription reads.
pub fn subscribe_failure(topic: &str, detail: &str) -> (r: String)
    ensures
        r@ == "Failed to subscribe to "@ + topic@ + ": "@ + detail@,
{
    let mut r = joined("Failed to subscribe to ", topic);
    r.append(": ");
    r.append(detail);
    r
}

/// How a sample that cannot be decoded is reported.
pub fn dropped_notice(topic: &str, detail: &str) -> (r: String)
    ensures
        r@ == "DROPPED: Malformed packet on topic '"@ + topic@ + "'. "@ + detail@,
{
    let mut r = joined("DROPPED: Malformed packet on topic '", topic);
    r.append("'. ");
    r.append(detail);
    r
}

/// How a failed publication reads.
pub fn publish_failure(topic: &str, detail: &str) -> (r: String)
    ensures
        r@ == "Zenoh publish error on topic '"@ + topic@ + "': "@ + detail@,
{
    let mut r = joined("Zenoh publish error on topic '", topic);
    r.append("': ");
    r.append(detail);
    r
}

/// How a publication is reported.
pub fn published_notice(topic: &str) -> (r: String)
    ensures
        r@ == "Published message to "@ + topic@,
{
    joined("Published message to ", topic)
}

} // verus!
