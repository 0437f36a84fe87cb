//! The message bus protocol: cognitive messages, their ethical signatures,
//! and the bus's subscription table and counters.
//!
//! Every message names its source and target layers and carries an ethical
//! signature; a message missing any of these is refused.  Delivery follows
//! the subscription table: a message goes to every live subscriber of its
//! topic.  The channels and the worker thread that carry messages live
//! outside this crate and ask the table whom to deliver to.

use vstd::prelude::*;
use vstd::string::*;

use crate::clock::unix_time_nanos;
use crate::error::{CoreError, CoreResult};
use crate::index::{distinct_keys, lemma_lookup_absent, lemma_lookup_at, lookup};
use crate::text::{hex_low, push_hex, str_eq};

verus! {

/// An ethical signature: every message carries one.
#[derive(Debug, Clone, PartialEq, Eq, Hash)]
pub struct EthicalSignature {
    /// The issuing module.
    pub issuer: String,
    /// The anchor hash (from the value-anchor verifier).
    pub anchor_hash: String,
    /// When it was issued, in nanoseconds since the Unix epoch.
    pub timestamp_ns: u128,
    /// Whether the ethics dynamics let it pass.
    pub ethics_approved: bool,
}

impl EthicalSignature {
    /// A signature by `issuer` over `anchor_hash`, issued at `timestamp_ns`.
    pub fn new_at(issuer: &str, anchor_hash: &str, ethics_approved: bool, timestamp_ns: u128) -> (s: Self)
        ensures
            s.issuer@ == issuer@,
            s.anchor_hash@ == anchor_hash@,
            s.ethics_approved == ethics_approved,
            s.timestamp_ns == timestamp_ns,
    {
        EthicalSignature {
            issuer: issuer.to_string(),
            anchor_hash: anchor_hash.to_string(),
            timestamp_ns,
            ethics_approved,
        }
    }

    /// A signature by `issuer` over `anchor_hash`, stamped with the wall
    /// clock (the reading of `unix_time_nanos`).
    pub fn new(issuer: &str, anchor_hash: &str, ethics_approved: bool) -> (s: Self)
        ensures
            s.issuer@ == issuer@,
            s.anchor_hash@ == anchor_hash@,
            s.ethics_approved == ethics_approved,
    {
        Self::new_at(issuer, anchor_hash, ethics_approved, unix_time_nanos())
    }
}

/// A `serde_json::Value`, carried through opaque as a message's payload.
#[verifier::external_type_specification]
#[verifier::external_body]
pub struct ExJsonValue(serde_json::Value);

/// Draws a random `u64` (`rand::random::<u64>()`).  Nothing is promised of
/// the value: it comes from the thread's random generator.
#[verifier::external_body]
fn random_u64() -> u64 {
    rand::random::<u64>()
}

/// The id of a message numbered `r`: "msg_" and `r` in 16 hexadecimal
/// digits.
pub open spec fn message_id(r: u64) -> Seq<char> {
    "msg_"@ + hex_low(r as nat, 16)
}

/// The message id made from the random number `r`.
pub fn message_id_from(r: u64) -> (id: String)
    ensures
        id@ == message_id(r),
{
    let mut id = String::from_str("msg_");
    push_hex(&mut id, r, 16);
    id
}

/// A message of the cognitive message protocol.
#[derive(Debug)]
pub struct CognitiveMessage {
    /// A unique id, "msg_" and 16 random hexadecimal digits.
    pub id: String,
    /// The sending layer.
    pub source_layer: String,
    /// The receiving layer ("broadcast" for all).
    pub target_layer: String,
    /// The topic subscriptions are routed by.
    pub topic: String,
    /// The JSON payload.
    pub payload: serde_json::Value,
    /// The ethical signature.
    pub ethical_signature: EthicalSignature,
    /// When it was made, in nanoseconds since the Unix epoch.
    pub timestamp_ns: u128,
}

/// Why a message is malformed, if it is: the first of its source layer,
/// target layer, signature issuer and anchor hash that is empty.
pub open spec fn message_fault(
    source: Seq<char>,
    target: Seq<char>,
    issuer: Seq<char>,
    anchor: Seq<char>,
) -> Option<Seq<char>> {
    if source.len() == 0 {
        Some("source_layer 不能为空"@)
    } else if target.len() == 0 {
        Some("target_layer 不能为空"@)
    } else if issuer.len() == 0 {
        Some("ethical_signature.issuer 不能为空"@)
    } else if anchor.len() == 0 {
        Some("ethical_signature.anchor_hash 不能为空"@)
    } else {
        None
    }
}

impl CognitiveMessage {
    /// The fault of this message, if any.
    pub open spec fn fault(&self) -> Option<Seq<char>> {
        message_fault(
            self.source_layer@,
            self.target_layer@,
            self.ethical_signature.issuer@,
            self.ethical_signature.anchor_hash@,
        )
    }

    /// A message whose id is made from the number `r`, stamped with
    /// `timestamp_ns`.
    pub fn new_at(
        source: &str,
        target: &str,
        topic: &str,
        payload: serde_json::Value,
        sig: EthicalSignature,
        r: u64,
        timestamp_ns: u128,
    ) -> (m: Self)
        ensures
            m.source_layer@ == source@,
            m.target_layer@ == target@,
            m.topic@ == topic@,
            m.payload == payload,
            m.ethical_signature == sig,
            m.id@ == message_id(r),
            m.timestamp_ns == timestamp_ns,
    {
        CognitiveMessage {
            id: message_id_from(r),
            source_layer: source.to_string(),
            target_layer: target.to_string(),
            topic: topic.to_string(),
            payload,
            ethical_signature: sig,
            timestamp_ns,
        }
    }

    /// A message with a fresh random id (from `random_u64`), stamped with
    /// the wall clock (the reading of `unix_time_nanos`).
    pub fn new(
        source: &str,
        target: &str,
        topic: &str,
        payload: serde_json::Value,
        sig: EthicalSignature,
    ) -> (m: Self)
        ensures
            m.source_layer@ == source@,
            m.target_layer@ == target@,
            m.topic@ == topic@,
            m.payload == payload,
            m.ethical_signature == sig,
            exists|r: u64| m.id@ == message_id(r),
    {
        let r = random_u64();
        Self::new_at(source, target, topic, payload, sig, r, unix_time_nanos())
    }

    /// Checks that the message names its layers and is signed: `Ok` exactly
    /// when none of the four is empty, else the first fault.
    pub fn validate(&self) -> (r: Result<(), String>)
        ensures
            match self.fault() {
                None => r is Ok,
                Some(f) => r matches Err(e) && e@ == f,
            },
    {
        if self.source_layer.as_str().is_empty() {
            return Err(String::from_str("source_layer 不能为空"));
        }
        if self.target_layer.as_str().is_empty() {
            return Err(String::from_str("target_layer 不能为空"));
        }
        if self.ethical_signature.issuer.as_str().is_empty() {
            return Err(String::from_str("ethical_signature.issuer 不能为空"));
        }
        if self.ethical_signature.anchor_hash.as_str().is_empty() {
            return Err(String::from_str("ethical_signature.anchor_hash 不能为空"));
        }
        Ok(())
    }
}

/// Bus counters.
#[derive(Debug, Clone)]
pub struct BusStats {
    /// Messages accepted for publication.
    pub published: u64,
    /// Deliveries made.
    pub delivered: u64,
    /// Live subscribers.
    pub subscribers: usize,
}

/// `s` without the occurrences of `id`.
pub open spec fn without(s: Seq<u64>, id: u64) -> Seq<u64>
    decreases s.len(),
{
    if s.len() == 0 {
        s
    } else if s.last() == id {
        without(s.drop_last(), id)
    } else {
        without(s.drop_last(), id).push(s.last())
    }
}

/// The members of `s` that occur in `live`, in order.
pub open spec fn live_only(s: Seq<u64>, live: Seq<u64>) -> Seq<u64>
    decreases s.len(),
{
    if s.len() == 0 {
        s
    } else if live.contains(s.last()) {
        live_only(s.drop_last(), live).push(s.last())
    } else {
        live_only(s.drop_last(), live)
    }
}

/// The bus's subscription table and counters.
pub struct BusRegistry {
    topics: Vec<String>,
    subscribers: Vec<Vec<u64>>,
    live: Vec<u64>,
    next_subscriber_id: u64,
    published_count: u64,
    delivered_count: u64,
}

impl BusRegistry {
    /// The subscribed topics, each once, in order of first subscription.
    pub closed spec fn topic_list(&self) -> Seq<Seq<char>> {
        self.topics@.map_values(|t: String| t@)
    }

    /// The subscriber lists, parallel to the topics.
    pub closed spec fn lists(&self) -> Seq<Seq<u64>> {
        self.subscribers@.map_values(|l: Vec<u64>| l@)
    }

    /// The subscribers of topic `t`, in order of subscription.
    pub closed spec fn subs_of(&self, t: Seq<char>) -> Seq<u64> {
        lookup(self.topic_list(), self.lists(), t)
    }

    /// The live subscribers, in order of subscription.
    pub closed spec fn live_ids(&self) -> Seq<u64> {
        self.live@
    }

    /// The id the next subscriber will get.
    pub closed spec fn next(&self) -> u64 {
        self.next_subscriber_id
    }

    /// Messages accepted for publication.
    pub closed spec fn published(&self) -> u64 {
        self.published_count
    }

    /// Deliveries made.
    pub closed spec fn delivered(&self) -> u64 {
        self.delivered_count
    }

    /// The table's invariant: topics are distinct, each with its subscriber
    /// list; every id handed out is below the next one and live ids are
    /// distinct.
    pub closed spec fn wf(&self) -> bool {
        &&& self.topics@.len() == self.subscribers@.len()
        &&& forall|i: int, j: int|
            0 <= i < j < self.topics@.len() ==> #[trigger] self.topics@[i]@ != #[trigger] self.topics@[j]@
        &&& distinct_keys(self.topic_list())
        &&& forall|i: int, k: int|
            0 <= i < self.subscribers@.len() && 0 <= k < self.subscribers@[i]@.len() ==> #[trigger] self.subscribers@[i]@[k]
                < self.next_subscriber_id
        &&& forall|k: int| 0 <= k < self.live@.len() ==> #[trigger] self.live@[k] < self.next_subscriber_id
        &&& self.live@.no_duplicates()
        &&& self.next_subscriber_id >= 1
    }

    /// An empty table; the first subscriber id is 1.
    pub fn new() -> (b: Self)
        ensures
            b.wf(),
            b.topic_list().len() == 0,
            forall|t: Seq<char>| b.subs_of(t) == Seq::<u64>::empty(),
            b.live_ids().len() == 0,
            b.next() == 1,
            b.published() == 0,
            b.delivered() == 0,
    {
        let b = BusRegistry {
            topics: Vec::new(),
            subscribers: Vec::new(),
            live: Vec::new(),
            next_subscriber_id: 1,
            published_count: 0,
            delivered_count: 0,
        };
        assert(b.topic_list() =~= Seq::empty());
        b
    }

    fn find_topic(&self, topic: &str) -> (r: Option<usize>)
        requires
            self.wf(),
        ensures
            match r {
                Some(i) => i < self.topics@.len() && self.topics@[i as int]@ == topic@,
                None => forall|i: int| 0 <= i < self.topics@.len() ==> self.topics@[i]@ != topic@,
            },
    {
        let mut i: usize = 0;
        while i < self.topics.len()
            invariant
                i <= self.topics@.len(),
                forall|k: int| 0 <= k < i ==> self.topics@[k]@ != topic@,
            decreases self.topics@.len() - i,
        {
            if str_eq(self.topics[i].as_str(), topic) {
                return Some(i);
            }
            i = i + 1;
        }
        None
    }

    proof fn lemma_subs_at(&self, i: int)
        requires
            self.wf(),
            0 <= i < self.topics@.len(),
        ensures
            self.subs_of(self.topics@[i]@) == self.subscribers@[i]@,
    {
        lemma_lookup_at(self.topic_list(), self.lists(), i);
    }

    proof fn lemma_subs_absent(&self, t: Seq<char>)
        requires
            self.wf(),
            forall|i: int| 0 <= i < self.topics@.len() ==> #[trigger] self.topics@[i]@ != t,
        ensures
            self.subs_of(t) == Seq::<u64>::empty(),
    {
        assert forall|i: int| 0 <= i < self.topic_list().len() implies #[trigger] self.topic_list()[i] != t by {
            assert(self.topic_list()[i] == self.topics@[i]@);
        }
        lemma_lookup_absent(self.topic_list(), self.lists(), t);
    }

    /// Subscribes to `topic`: the new subscriber gets the next id, becomes
    /// live, and joins the end of the topic's list.
    pub fn subscribe(&mut self, topic: String) -> (id: u64)
        requires
            old(self).wf(),
            old(self).next() < u64::MAX,
        ensures
            final(self).wf(),
            id == old(self).next(),
            final(self).next() == old(self).next() + 1,
            final(self).live_ids() == old(self).live_ids().push(id),
            forall|t: Seq<char>| #[trigger]
                final(self).subs_of(t) == if t == topic@ {
                    old(self).subs_of(t).push(id)
                } else {
                    old(self).subs_of(t)
                },
            final(self).published() == old(self).published(),
            final(self).delivered() == old(self).delivered(),
    {
        let id = self.next_subscriber_id;
        self.next_subscriber_id = self.next_subscriber_id + 1;
        let ghost old_live = self.live@;
        self.live.push(id);
        proof {
            assert forall|a: int, b: int| 0 <= a < b < self.live@.len() implies self.live@[a] != self.live@[b] by {
                if b == self.live@.len() - 1 {
                    assert(old_live[a] < id);
                }
            }
        }
        let found = self.find_topic(topic.as_str());
        let ghost old_self = *self;
        match found {
            Some(i) => {
                let mut list = self.subscribers[i].clone();
                list.push(id);
                self.subscribers.set(i, list);
                proof {
                    assert forall|t: Seq<char>| #[trigger]
                        self.subs_of(t) == if t == topic@ {
                            old_self.subs_of(t).push(id)
                        } else {
                            old_self.subs_of(t)
                        } by {
                        if exists|j: int| 0 <= j < self.topics@.len() && #[trigger] self.topics@[j]@ == t {
                            let j = choose|j: int| 0 <= j < self.topics@.len() && #[trigger] self.topics@[j]@ == t;
                            self.lemma_subs_at(j);
                            old_self.lemma_subs_at(j);
                        } else {
                            self.lemma_subs_absent(t);
                            old_self.lemma_subs_absent(t);
                        }
                    }
                }
            },
            None => {
                let ghost old_topics = self.topics@;
                self.topics.push(topic);
                let mut list: Vec<u64> = Vec::new();
                list.push(id);
                self.subscribers.push(list);
                proof {
                    assert forall|a: int, b: int| 0 <= a < b < self.topics@.len() implies #[trigger] self.topics@[a]@
                        != #[trigger] self.topics@[b]@ by {
                        if b == self.topics@.len() - 1 {
                            assert(old_topics[a]@ != topic@);
                        }
                    }
                    assert forall|t: Seq<char>| #[trigger]
                        self.subs_of(t) == if t == topic@ {
                            old_self.subs_of(t).push(id)
                        } else {
                            old_self.subs_of(t)
                        } by {
                        if exists|j: int| 0 <= j < self.topics@.len() && #[trigger] self.topics@[j]@ == t {
                            let j = choose|j: int| 0 <= j < self.topics@.len() && #[trigger] self.topics@[j]@ == t;
                            self.lemma_subs_at(j);
                            if j < old_topics.len() {
                                old_self.lemma_subs_at(j);
                            } else {
                                assert(self.subscribers@[j]@ =~= seq![id]);
                                assert(t == topic@);
                                assert forall|a: int| 0 <= a < old_self.topics@.len() implies #[trigger] old_self.topics@[a]@
                                    != t by {
                                    assert(old_topics[a]@ != topic@);
                                }
                                old_self.lemma_subs_absent(t);
                            }
                        } else {
                            self.lemma_subs_absent(t);
                            assert forall|a: int| 0 <= a < old_self.topics@.len() implies #[trigger] old_self.topics@[a]@
                                != t by {
                                assert(self.topics@[a] == old_topics[a]);
                            }
                            old_self.lemma_subs_absent(t);
                        }
                    }
                }
            },
        }
        proof {
            assert(self.topic_list().len() == self.topics@.len());
        }
        id
    }

    /// Unsubscribes `id`: it is no longer live and leaves every topic list.
    pub fn unsubscribe(&mut self, id: u64)
        requires
            old(self).wf(),
        ensures
            final(self).wf(),
            final(self).live_ids() == without(old(self).live_ids(), id),
            forall|t: Seq<char>| #[trigger] final(self).subs_of(t) == without(old(self).subs_of(t), id),
            final(self).next() == old(self).next(),
            final(self).published() == old(self).published(),
            final(self).delivered() == old(self).delivered(),
    {
        let ghost old_self = *self;
        let new_live = remove_id(&self.live, id);
        proof {
            lemma_without_sub(self.live@, id);
            lemma_without_distinct(self.live@, id);
        }
        self.live = new_live;
        let mut i: usize = 0;
        while i < self.subscribers.len()
            invariant
                old_self.wf(),
                self.topics@ == old_self.topics@,
                self.live@ == without(old_self.live@, id),
                self.next_subscriber_id == old_self.next_subscriber_id,
                self.published_count == old_self.published_count,
                self.delivered_count == old_self.delivered_count,
                self.subscribers@.len() == old_self.subscribers@.len(),
                i <= self.subscribers@.len(),
                forall|k: int| 0 <= k < i ==> #[trigger] self.subscribers@[k]@ == without(old_self.subscribers@[k]@, id),
                forall|k: int| i <= k < self.subscribers@.len() ==> #[trigger] self.subscribers@[k]@ == old_self.subscribers@[k]@,
            decreases self.subscribers@.len() - i,
        {
            let list = remove_id(&self.subscribers[i], id);
            self.subscribers.set(i, list);
            i = i + 1;
        }
        proof {
            assert forall|a: int, k: int|
                0 <= a < self.subscribers@.len() && 0 <= k < self.subscribers@[a]@.len() implies #[trigger] self.subscribers@[a]@[k]
                < self.next_subscriber_id by {
                lemma_without_sub(old_self.subscribers@[a]@, id);
                let t = choose|t: int| 0 <= t < old_self.subscribers@[a]@.len() && old_self.subscribers@[a]@[t] == self.subscribers@[a]@[k];
            }
            assert forall|k: int| 0 <= k < self.live@.len() implies #[trigger] self.live@[k] < self.next_subscriber_id by {
                let t = choose|t: int| 0 <= t < old_self.live@.len() && old_self.live@[t] == self.live@[k];
            }
            assert forall|t: Seq<char>| #[trigger] self.subs_of(t) == without(old_self.subs_of(t), id) by {
                if exists|j: int| 0 <= j < self.topics@.len() && #[trigger] self.topics@[j]@ == t {
                    let j = choose|j: int| 0 <= j < self.topics@.len() && #[trigger] self.topics@[j]@ == t;
                    self.lemma_subs_at(j);
                    old_self.lemma_subs_at(j);
                } else {
                    self.lemma_subs_absent(t);
                    old_self.lemma_subs_absent(t);
                    assert(without(Seq::<u64>::empty(), id) =~= Seq::<u64>::empty());
                }
            }
        }
    }

    /// Accepts a message for publication: a malformed one is refused with a
    /// bus error carrying its fault; otherwise nothing changes.
    pub fn check_publish(&self, msg: &CognitiveMessage) -> (r: CoreResult<()>)
        ensures
            match msg.fault() {
                None => r is Ok,
                Some(f) => r matches Err(CoreError::BusError(e)) && e@ == f,
            },
    {
        match msg.validate() {
            Ok(()) => Ok(()),
            Err(e) => Err(CoreError::BusError(e)),
        }
    }

    /// Counts one published message.
    pub fn record_published(&mut self)
        requires
            old(self).wf(),
            old(self).published() < u64::MAX,
        ensures
            final(self).wf(),
            final(self).published() == old(self).published() + 1,
            final(self).delivered() == old(self).delivered(),
            final(self).live_ids() == old(self).live_ids(),
            final(self).next() == old(self).next(),
            forall|t: Seq<char>| #[trigger] final(self).subs_of(t) == old(self).subs_of(t),
    {
        self.published_count = self.published_count + 1;
    }

    /// Routes a message: a malformed one is dropped (`None`); otherwise the
    /// live subscribers of its topic, in order, receive it, and every
    /// subscriber listed for the topic counts as a delivery.
    pub fn dispatch(&mut self, msg: &CognitiveMessage) -> (r: Option<Vec<u64>>)
        requires
            old(self).wf(),
            old(self).delivered() + old(self).subs_of(msg.topic@).len() <= u64::MAX,
        ensures
            final(self).wf(),
            msg.fault() is Some ==> r is None && final(self).delivered() == old(self).delivered(),
            msg.fault() is None ==> (r matches Some(ids) && ids@ == live_only(
                old(self).subs_of(msg.topic@),
                old(self).live_ids(),
            ) && final(self).delivered() == old(self).delivered() + old(self).subs_of(msg.topic@).len()),
            final(self).published() == old(self).published(),
            final(self).live_ids() == old(self).live_ids(),
            final(self).next() == old(self).next(),
            forall|t: Seq<char>| #[trigger] final(self).subs_of(t) == old(self).subs_of(t),
    {
        match msg.validate() {
            Err(_) => None,
            Ok(()) => {
                match self.find_topic(msg.topic.as_str()) {
                    None => {
                        proof {
                            self.lemma_subs_absent(msg.topic@);
                        }
                        Some(Vec::new())
                    },
                    Some(i) => {
                        proof {
                            self.lemma_subs_at(i as int);
                        }
                        let ids = &self.subscribers[i];
                        let n = ids.len();
                        let mut out: Vec<u64> = Vec::new();
                        let mut k: usize = 0;
                        while k < n
                            invariant
                                k <= n,
                                n == ids@.len(),
                                out@ == live_only(ids@.take(k as int), self.live@),
                            decreases n - k,
                        {
                            proof {
                                assert(ids@.take(k + 1).drop_last() =~= ids@.take(k as int));
                            }
                            if contains_id(&self.live, ids[k]) {
                                out.push(ids[k]);
                            }
                            k = k + 1;
                        }
                        assert(ids@.take(n as int) =~= ids@);
                        self.delivered_count = self.delivered_count + n as u64;
                        Some(out)
                    },
                }
            },
        }
    }

    /// The id the next subscriber will get.
    pub fn next_id(&self) -> (n: u64)
        ensures
            n == self.next(),
    {
        self.next_subscriber_id
    }

    /// Number of subscribers listed for `topic`.
    pub fn subscriber_count(&self, topic: &str) -> (n: usize)
        requires
            self.wf(),
        ensures
            n == self.subs_of(topic@).len(),
    {
        match self.find_topic(topic) {
            Some(i) => {
                proof {
                    self.lemma_subs_at(i as int);
                }
                self.subscribers[i].len()
            },
            None => {
                proof {
                    self.lemma_subs_absent(topic@);
                }
                0
            },
        }
    }

    /// The counters: messages published, deliveries made, live subscribers.
    pub fn stats(&self) -> (s: BusStats)
        ensures
            s.published == self.published(),
            s.delivered == self.delivered(),
            s.subscribers == self.live_ids().len(),
    {
        BusStats {
            published: self.published_count,
            delivered: self.delivered_count,
            subscribers: self.live.len(),
        }
    }
}

fn contains_id(v: &Vec<u64>, id: u64) -> (b: bool)
    ensures
        b == v@.contains(id),
{
    let mut i: usize = 0;
    while i < v.len()
        invariant
            i <= v@.len(),
            forall|k: int| 0 <= k < i ==> v@[k] != id,
        decreases v@.len() - i,
    {
        if v[i] == id {
            return true;
        }
        i = i + 1;
    }
    false
}

fn remove_id(v: &Vec<u64>, id: u64) -> (r: Vec<u64>)
    ensures
        r@ == without(v@, id),
{
    let mut r: Vec<u64> = Vec::new();
    let mut i: usize = 0;
    while i < v.len()
        invariant
            i <= v@.len(),
            r@ == without(v@.take(i as int), id),
        decreases v@.len() - i,
    {
        proof {
            assert(v@.take(i + 1).drop_last() =~= v@.take(i as int));
        }
        if v[i] != id {
            r.push(v[i]);
        }
        i = i + 1;
    }
    assert(v@.take(v@.len() as int) =~= v@);
    r
}

/// Subscribing and then unsubscribing the new subscriber gives every
/// subscriber list back unchanged: the new id is fresh, so removing it
/// removes only what the subscription added.
pub proof fn law_subscribe_then_unsubscribe(s: Seq<u64>, id: u64)
    requires
        !s.contains(id),
    ensures
        without(s.push(id), id) == s,
{
    assert(s.push(id).drop_last() =~= s);
    lemma_without_absent(s, id);
}

proof fn lemma_without_absent(s: Seq<u64>, id: u64)
    requires
        !s.contains(id),
    ensures
        without(s, id) == s,
    decreases s.len(),
{
    if s.len() > 0 {
        let p = s.drop_last();
        assert(!p.contains(id)) by {
            if p.contains(id) {
                let t = choose|t: int| 0 <= t < p.len() && p[t] == id;
                assert(s[t] == id);
            }
        }
        lemma_without_absent(p, id);
        assert(s.last() != id) by {
            assert(s[s.len() - 1] == s.last());
        }
        assert(p.push(s.last()) =~= s);
    }
}

/// A subscriber that has unsubscribed receives nothing: once `id` is gone
/// from the live subscribers and from the topic's list, no delivery names
/// it.
pub proof fn law_unsubscribed_receive_nothing(subs: Seq<u64>, live: Seq<u64>, id: u64)
    ensures
        !live_only(without(subs, id), without(live, id)).contains(id),
{
    lemma_without_sub(subs, id);
    lemma_live_only_sub(without(subs, id), without(live, id));
    if live_only(without(subs, id), without(live, id)).contains(id) {
        let k = choose|k: int|
            0 <= k < live_only(without(subs, id), without(live, id)).len() && live_only(
                without(subs, id),
                without(live, id),
            )[k] == id;
        let t = choose|t: int|
            0 <= t < without(subs, id).len() && without(subs, id)[t] == #[trigger] live_only(
                without(subs, id),
                without(live, id),
            )[k];
        assert(without(subs, id)[t] != id);
    }
}

proof fn lemma_live_only_sub(s: Seq<u64>, live: Seq<u64>)
    ensures
        forall|k: int|
            0 <= k < live_only(s, live).len() ==> exists|t: int|
                0 <= t < s.len() && s[t] == #[trigger] live_only(s, live)[k],
    decreases s.len(),
{
    if s.len() > 0 {
        let p = s.drop_last();
        lemma_live_only_sub(p, live);
        let w = live_only(p, live);
        assert forall|k: int| 0 <= k < live_only(s, live).len() implies exists|t: int|
            0 <= t < s.len() && s[t] == #[trigger] live_only(s, live)[k] by {
            if k < w.len() {
                let t = choose|t: int| 0 <= t < p.len() && p[t] == w[k];
                assert(s[t] == p[t]);
            } else {
                assert(s[s.len() - 1] == live_only(s, live)[k]);
            }
        }
    }
}

/// Every member of `without(s, id)` is a member of `s` other than `id`.
pub proof fn lemma_without_sub(s: Seq<u64>, id: u64)
    ensures
        forall|k: int|
            0 <= k < without(s, id).len() ==> exists|t: int|
                0 <= t < s.len() && s[t] == #[trigger] without(s, id)[k],
        forall|k: int| 0 <= k < without(s, id).len() ==> #[trigger] without(s, id)[k] != id,
        without(s, id).len() <= s.len(),
    decreases s.len(),
{
    if s.len() > 0 {
        lemma_without_sub(s.drop_last(), id);
        let w = without(s.drop_last(), id);
        assert forall|k: int| 0 <= k < without(s, id).len() implies exists|t: int|
            0 <= t < s.len() && s[t] == #[trigger] without(s, id)[k] by {
            if k < w.len() {
                let t = choose|t: int| 0 <= t < s.drop_last().len() && s.drop_last()[t] == w[k];
                assert(s[t] == s.drop_last()[t]);
            } else {
                assert(s[s.len() - 1] == without(s, id)[k]);
            }
        }
    }
}

proof fn lemma_without_distinct(s: Seq<u64>, id: u64)
    requires
        s.no_duplicates(),
    ensures
        without(s, id).no_duplicates(),
    decreases s.len(),
{
    if s.len() > 0 {
        let p = s.drop_last();
        assert(p.no_duplicates());
        lemma_without_distinct(p, id);
        lemma_without_sub(p, id);
        let w = without(p, id);
        if s.last() != id {
            assert forall|a: int, b: int| 0 <= a < b < w.push(s.last()).len() implies w.push(s.last())[a] != w.push(
                s.last(),
            )[b] by {
                if b == w.len() {
                    let t = choose|t: int| 0 <= t < p.len() && p[t] == #[trigger] w[a];
                    assert(s[t] != s[s.len() - 1]);
                }
            }
        }
    }
}

} // verus!
