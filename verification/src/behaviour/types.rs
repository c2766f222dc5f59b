//! What travels over the overlay, and what the overlay reports.
//!
//! The layout of a gossip message is this library's own: a tag of four
//! bytes, which says what it carries, and the canonical bytes of what it
//! carries. There is one tag so far: `0`, for a signed block. Bytes are a
//! message only if they are exactly the bytes that
//! [`GossipsubMessage::encode`] writes for it; anything else is refused.

use vstd::prelude::*;
use crate::block::{SignedBlock, SignedBlockView};
use crate::errors::Error;
use crate::format::{lemma_parse_signed_block, lemma_unparse_signed_block, parse_signed_block, read_signed_block};
use crate::wire::{lemma_parse_u32, lemma_unparse_u32, parse_u32, put_u32, take_u32, u32_bytes};

verus! {

/// The identity that the overlay gives a message.
pub type MessageId = Vec<u8>;

/// The identity of a peer.
pub type PeerId = Vec<u8>;

/// The name of a topic of the overlay.
pub type TopicHash = String;

/// The tag of a message that carries a signed block.
pub const BLOCK_TAG: u32 = 0;

/// A message of the overlay.
#[derive(Debug)]
pub enum GossipsubMessage {
    Block(Box<SignedBlock>),
}

/// The mathematical content of a message.
pub enum GossipsubMessageView {
    Block(SignedBlockView),
}

impl GossipsubMessageView {
    /// The bytes of the message: its tag, then what it carries.
    pub open spec fn bytes(self) -> Seq<u8> {
        match self {
            GossipsubMessageView::Block(signed) => u32_bytes(BLOCK_TAG) + signed.bytes(),
        }
    }

    /// What the message carries is well formed.
    pub open spec fn wf(self) -> bool {
        match self {
            GossipsubMessageView::Block(signed) => signed.wf(),
        }
    }
}

/// The message that `data` is the bytes of, if there is one.
pub open spec fn decoded(data: Seq<u8>) -> Option<GossipsubMessageView> {
    if exists|m: GossipsubMessageView| m.wf() && m.bytes() == data {
        Some(choose|m: GossipsubMessageView| m.wf() && m.bytes() == data)
    } else {
        None
    }
}

/// Reading a message: the tag, what it announces, and nothing behind it.
pub open spec fn parse_message(s: Seq<u8>) -> Option<GossipsubMessageView> {
    match parse_u32(s) {
        Some((tag, rest)) => {
            if tag == BLOCK_TAG {
                match parse_signed_block(rest) {
                    Some((signed, tail)) => {
                        if tail.len() == 0 {
                            Some(GossipsubMessageView::Block(signed))
                        } else {
                            None
                        }
                    },
                    None => None,
                }
            } else {
                None
            }
        },
        None => None,
    }
}

/// The bytes of a message are read as that message.
pub proof fn lemma_parse_message(m: GossipsubMessageView)
    requires
        m.wf(),
    ensures
        parse_message(m.bytes()) == Some(m),
{
    match m {
        GossipsubMessageView::Block(signed) => {
            lemma_parse_u32(BLOCK_TAG, signed.bytes());
            lemma_parse_signed_block(signed, Seq::empty());
            assert(signed.bytes() + Seq::<u8>::empty() =~= signed.bytes());
        },
    }
}

/// What is read as a message is the bytes of that message, which is well
/// formed.
pub proof fn lemma_unparse_message(s: Seq<u8>)
    requires
        parse_message(s) is Some,
    ensures
        parse_message(s).unwrap().wf(),
        parse_message(s).unwrap().bytes() == s,
{
    lemma_unparse_u32(s);
    let (tag, rest) = parse_u32(s).unwrap();
    lemma_unparse_signed_block(rest);
    let (signed, tail) = parse_signed_block(rest).unwrap();
    assert(signed.bytes() + tail =~= signed.bytes());
}

/// Reading decides what bytes are the bytes of.
pub proof fn lemma_decoded_is_parsed(data: Seq<u8>)
    ensures
        decoded(data) == parse_message(data),
{
    if parse_message(data) is Some {
        lemma_unparse_message(data);
        let m = parse_message(data).unwrap();
        let chosen = choose|m: GossipsubMessageView| m.wf() && m.bytes() == data;
        lemma_parse_message(chosen);
    } else {
        if exists|m: GossipsubMessageView| m.wf() && m.bytes() == data {
            let m = choose|m: GossipsubMessageView| m.wf() && m.bytes() == data;
            lemma_parse_message(m);
        }
    }
}

/// Decoding inverts encoding: the bytes of a well-formed message are the
/// bytes of that message and of no other.
pub proof fn lemma_decode_encode(m: GossipsubMessageView)
    requires
        m.wf(),
    ensures
        decoded(m.bytes()) == Some(m),
{
    lemma_decoded_is_parsed(m.bytes());
    lemma_parse_message(m);
}

/// Two well-formed messages with the same bytes are the same message.
pub proof fn lemma_bytes_injective(a: GossipsubMessageView, b: GossipsubMessageView)
    requires
        a.wf(),
        b.wf(),
        a.bytes() == b.bytes(),
    ensures
        a == b,
{
    lemma_decode_encode(a);
    lemma_decode_encode(b);
}

impl View for GossipsubMessage {
    type V = GossipsubMessageView;

    open spec fn view(&self) -> GossipsubMessageView {
        match self {
            GossipsubMessage::Block(signed) => GossipsubMessageView::Block(signed@),
        }
    }
}

impl Clone for GossipsubMessage {
    fn clone(&self) -> (copy: GossipsubMessage)
        ensures
            copy@ == self@,
            copy.wf() == self.wf(),
    {
        match self {
            GossipsubMessage::Block(signed) => {
                let inner: &SignedBlock = signed;
                GossipsubMessage::Block(Box::new(inner.clone()))
            },
        }
    }
}

impl GossipsubMessage {
    /// What the message carries is well formed.
    pub open spec fn wf(&self) -> bool {
        match self {
            GossipsubMessage::Block(signed) => signed.wf(),
        }
    }

    /// The bytes of the message. Encoding never fails.
    pub fn encode(&self) -> (r: Result<Vec<u8>, Error>)
        ensures
            r matches Ok(bytes) && bytes@ == self@.bytes(),
            self.wf() ==> self@.wf() && decoded(self@.bytes()) == Some(self@),
    {
        let mut out: Vec<u8> = Vec::new();
        match self {
            GossipsubMessage::Block(signed) => {
                put_u32(&mut out, BLOCK_TAG);
                signed.write_to(&mut out);
                assert(out@ =~= self@.bytes());
            },
        }
        proof {
            if self.wf() {
                lemma_decode_encode(self@);
            }
        }
        Ok(out)
    }

    /// The message that `data` is the bytes of. Fails with `SerdeError` if
    /// `data` is the bytes of no message.
    pub fn decode(data: &[u8]) -> (r: Result<GossipsubMessage, Error>)
        ensures
            match r {
                Ok(message) => message.wf() && message@.wf() && message@.bytes() == data@ && decoded(data@) == Some(
                    message@,
                ),
                Err(e) => e is SerdeError && decoded(data@) is None,
            },
    {
        proof {
            lemma_decoded_is_parsed(data@);
            assert(data@.skip(0) =~= data@);
            if parse_message(data@) is Some {
                lemma_unparse_message(data@);
            }
        }
        let (tag, at) = match take_u32(data, 0) {
            Some(r) => r,
            None => {
                return Err(Error::SerdeError("message too short for its tag".to_owned()));
            },
        };
        if tag != BLOCK_TAG {
            return Err(Error::SerdeError("unknown message tag".to_owned()));
        }
        let (signed, end) = match read_signed_block(data, at) {
            Some(r) => r,
            None => {
                return Err(Error::SerdeError("malformed signed block".to_owned()));
            },
        };
        if end != data.len() {
            return Err(Error::SerdeError("bytes behind the message".to_owned()));
        }
        Ok(GossipsubMessage::Block(Box::new(signed)))
    }
}

/// What the overlay reports to the service.
#[derive(Debug)]
pub enum BehaviourEvent {
    GossipsubMessage { id: MessageId, source: PeerId, message: GossipsubMessage },
    PeerSubscribed(PeerId, TopicHash),
    PeerUnsubscribed(PeerId, TopicHash),
}

/// The mathematical content of a report of the overlay.
pub enum BehaviourEventView {
    GossipsubMessage { id: Seq<u8>, source: Seq<u8>, message: GossipsubMessageView },
    PeerSubscribed(Seq<u8>, Seq<char>),
    PeerUnsubscribed(Seq<u8>, Seq<char>),
}

impl View for BehaviourEvent {
    type V = BehaviourEventView;

    open spec fn view(&self) -> BehaviourEventView {
        match self {
            BehaviourEvent::GossipsubMessage { id, source, message } => BehaviourEventView::GossipsubMessage {
                id: id@,
                source: source@,
                message: message@,
            },
            BehaviourEvent::PeerSubscribed(peer, topic) => BehaviourEventView::PeerSubscribed(peer@, topic@),
            BehaviourEvent::PeerUnsubscribed(peer, topic) => BehaviourEventView::PeerUnsubscribed(peer@, topic@),
        }
    }
}

impl BehaviourEvent {
    /// A message that the event carries is well formed.
    pub open spec fn wf(&self) -> bool {
        match self {
            BehaviourEvent::GossipsubMessage { id, source, message } => message.wf(),
            _ => true,
        }
    }
}

} // verus!
