//! The library's side of the overlay: what arrives from the gossip protocol
//! is decoded and queued, and handed on in the order in which it arrived.

use vstd::prelude::*;
use vstd::bytes::u64_to_le_bytes;
use vstd::std_specs::hash::DefaultHasherAdditionalSpecFns;
use std::collections::hash_map::DefaultHasher;
use std::hash::Hasher;
use crate::errors::Error;
use crate::wire::u64_bytes;

pub mod types;

use types::{decoded, BehaviourEvent, BehaviourEventView, GossipsubMessage, MessageId, PeerId, TopicHash};

verus! {

/// What the gossip protocol reports: a message with its source and its
/// identity on the overlay, or a peer that joined or left a topic.
#[derive(Debug)]
pub enum GossipsubEvent {
    Message(PeerId, MessageId, Vec<u8>),
    Subscribed { peer_id: PeerId, topic: TopicHash },
    Unsubscribed { peer_id: PeerId, topic: TopicHash },
}

/// What a report of the gossip protocol becomes in the queue. A message whose
/// bytes are no message becomes nothing.
pub open spec fn injected(event: GossipsubEvent) -> Option<BehaviourEventView> {
    match event {
        GossipsubEvent::Message(source, id, data) => match decoded(data@) {
            Some(message) => Some(BehaviourEventView::GossipsubMessage { id: id@, source: source@, message }),
            None => None,
        },
        GossipsubEvent::Subscribed { peer_id, topic } => Some(BehaviourEventView::PeerSubscribed(peer_id@, topic@)),
        GossipsubEvent::Unsubscribed { peer_id, topic } => Some(
            BehaviourEventView::PeerUnsubscribed(peer_id@, topic@),
        ),
    }
}

/// The digest of a message: that of its length, as eight little-endian
/// bytes, and its bytes.
pub open spec fn message_digest(data: Seq<u8>) -> u64 {
    DefaultHasher::spec_finish(seq![u64_bytes(data.len() as u64), data])
}

/// The decimal digits of a number, as ASCII characters.
pub open spec fn decimal(n: nat) -> Seq<u8>
    decreases n,
{
    if n < 10 {
        seq![(48 + n) as u8]
    } else {
        decimal(n / 10).push((48 + n % 10) as u8)
    }
}

/// Writes a number in decimal digits.
pub fn decimal_digits(n: u64) -> (digits: Vec<u8>)
    ensures
        digits@ == decimal(n as nat),
{
    let mut low: Vec<u8> = Vec::new();
    let mut m: u64 = n;
    assert(decimal(m as nat) + low@.reverse() =~= decimal(n as nat));
    while m >= 10
        invariant
            decimal(n as nat) == decimal(m as nat) + low@.reverse(),
        decreases m,
    {
        let d: u8 = 48 + (m % 10) as u8;
        proof {
            assert(low@.push(d).reverse() =~= seq![d] + low@.reverse());
            assert(decimal((m / 10) as nat).push(d) + low@.reverse() =~= decimal((m / 10) as nat) + (seq![d]
                + low@.reverse()));
        }
        low.push(d);
        m = m / 10;
    }
    let first: u8 = 48 + m as u8;
    let mut digits: Vec<u8> = Vec::new();
    digits.push(first);
    let ghost len = low@.len() as int;
    let mut i: usize = low.len();
    assert(digits@ =~= seq![first] + low@.subrange(i as int, len).reverse());
    while i > 0
        invariant
            i <= len,
            len == low@.len(),
            digits@ == seq![first] + low@.subrange(i as int, len).reverse(),
        decreases i,
    {
        i -= 1;
        proof {
            assert(low@.subrange(i as int, len).reverse() =~= low@.subrange(i + 1, len).reverse().push(low@[i as int]));
        }
        digits.push(low[i]);
        assert(digits@ =~= seq![first] + low@.subrange(i as int, len).reverse());
    }
    assert(low@.subrange(0, len) =~= low@);
    digits
}

/// The identity of a message with the bytes `data`, as the overlay is to
/// know it: the decimal digits of the digest of the message. Equal bytes
/// have equal identities, on every peer.
pub fn message_id(data: &[u8]) -> (id: MessageId)
    ensures
        id@ == decimal(message_digest(data@) as nat),
{
    decimal_digits(message_hash(data))
}

/// The digest of a message with the bytes `data`.
pub fn message_hash(data: &[u8]) -> (hash: u64)
    ensures
        hash == message_digest(data@),
{
    let mut hasher = DefaultHasher::new();
    let n = data.len();
    let count = u64_to_le_bytes(n as u64);
    hasher.write(count.as_slice());
    hasher.write(data);
    assert(hasher@ =~= seq![u64_bytes(data@.len() as u64), data@]);
    hasher.finish()
}

/// The events of the overlay that the service has not taken yet.
#[derive(Debug)]
pub struct Behaviour {
    events: Vec<BehaviourEvent>,
}

impl View for Behaviour {
    type V = Seq<BehaviourEventView>;

    closed spec fn view(&self) -> Seq<BehaviourEventView> {
        self.events@.map_values(|e: BehaviourEvent| e@)
    }
}

impl Behaviour {
    /// Every message in the queue is well formed.
    pub closed spec fn wf(&self) -> bool {
        forall|i: int| 0 <= i < self.events@.len() ==> (#[trigger] self.events@[i]).wf()
    }

    /// No event yet.
    pub fn new() -> (behaviour: Behaviour)
        ensures
            behaviour.wf(),
            behaviour@ == Seq::<BehaviourEventView>::empty(),
    {
        let behaviour = Behaviour { events: Vec::new() };
        assert(behaviour@ =~= Seq::<BehaviourEventView>::empty());
        behaviour
    }

    /// Takes a report of the gossip protocol: puts it at the end of the
    /// queue, a message decoded. A message that cannot be decoded is dropped,
    /// and the error is returned.
    pub fn inject_event(&mut self, event: GossipsubEvent) -> (dropped: Option<Error>)
        requires
            old(self).wf(),
        ensures
            final(self).wf(),
            match injected(event) {
                Some(e) => final(self)@ == old(self)@.push(e) && dropped is None,
                None => final(self)@ == old(self)@ && dropped is Some && dropped->0 is SerdeError,
            },
    {
        let queued = match event {
            GossipsubEvent::Message(source, id, data) => {
                match GossipsubMessage::decode(data.as_slice()) {
                    Ok(message) => BehaviourEvent::GossipsubMessage { id, source, message },
                    Err(e) => {
                        return Some(e);
                    },
                }
            },
            GossipsubEvent::Subscribed { peer_id, topic } => BehaviourEvent::PeerSubscribed(peer_id, topic),
            GossipsubEvent::Unsubscribed { peer_id, topic } => BehaviourEvent::PeerUnsubscribed(peer_id, topic),
        };
        let ghost before = self@;
        let ghost e = queued@;
        self.events.push(queued);
        assert(self@ =~= before.push(e));
        None
    }

    /// Takes the oldest event out of the queue, if there is one.
    pub fn poll(&mut self) -> (event: Option<BehaviourEvent>)
        requires
            old(self).wf(),
        ensures
            final(self).wf(),
            match event {
                Some(e) => old(self)@.len() > 0 && e@ == old(self)@[0] && e.wf() && final(self)@ == old(self)@.drop_first(),
                None => old(self)@.len() == 0 && final(self)@ == old(self)@,
            },
    {
        if self.events.len() > 0 {
            let ghost before = self@;
            let e = self.events.remove(0);
            assert(self@ =~= before.drop_first());
            assert(e@ == before[0]);
            Some(e)
        } else {
            None
        }
    }
}

} // verus!
