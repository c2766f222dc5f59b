//! The service: the loop that stands between the local input, the overlay
//! and the handler.
//!
//! The service owns the signing key. The loop itself waits for input and for
//! the network, which is the caller's business; what the service decides is
//! here: for every event that the loop hands in, [`Service::step`] answers
//! what the loop is to do.

use vstd::prelude::*;
use libp2p::identity::ed25519::Keypair;
use crate::behaviour::types::{BehaviourEvent, GossipsubMessage, GossipsubMessageView, MessageId, PeerId};
use crate::block::{Block, SignedBlock};
use crate::dictionary::Dictionary;
use crate::errors::Error;
use crate::identity::{ed25519_signature, keypair_public, public_key_bytes};
use crate::import::{genesis_written, import_block, import_genesis, imported};
use crate::store::DiscStore;

pub mod handler;

use handler::HandlerMessage;

verus! {

/// What the handler sends to the service.
#[derive(Debug)]
pub enum ServiceMessage {
    /// A block made of local input, to be signed and published.
    NewBlock(Block),
    /// A published block was imported: the message that brought it, and the
    /// peer that sent it, are to be propagated on the overlay.
    PropagateGossip(MessageId, PeerId),
}

impl ServiceMessage {
    /// A block that the message carries is well formed.
    pub open spec fn wf(&self) -> bool {
        match self {
            ServiceMessage::NewBlock(block) => block.wf(),
            ServiceMessage::PropagateGossip(id, source) => true,
        }
    }
}

/// What the loop hands to the service.
#[derive(Debug)]
pub enum ServiceEvent {
    /// A line of local input.
    Stdin(String),
    /// The local input has ended.
    StdinClosed,
    /// An event of the overlay.
    Overlay(BehaviourEvent),
    /// The overlay has ended.
    OverlayClosed,
    /// A message of the handler.
    Handler(ServiceMessage),
}

impl ServiceEvent {
    /// A block that the event carries is well formed.
    pub open spec fn wf(&self) -> bool {
        match self {
            ServiceEvent::Overlay(event) => event.wf(),
            ServiceEvent::Handler(message) => message.wf(),
            _ => true,
        }
    }
}

/// What the service asks the loop to do.
#[derive(Debug)]
pub enum ServiceAction {
    /// Hand this message to the handler.
    ToHandler(HandlerMessage),
    /// Publish these bytes on the topic of the chain.
    Publish(Vec<u8>),
    /// Propagate this message of this peer on the overlay.
    Propagate(MessageId, PeerId),
    /// Leave the loop.
    Stop,
}

/// What the service asks for when the handler sends `message`, if `keypair`
/// is the service's own.
///
/// A new block is signed with the keypair; its bytes are published and the
/// signed block goes back to the handler, which imports it. If the block
/// names the service's key as its proposer, the signature holds. A message
/// that is to be propagated is propagated.
pub open spec fn served(keypair: Keypair, message: ServiceMessage, actions: Seq<ServiceAction>) -> bool {
    match message {
        ServiceMessage::NewBlock(block) => {
            &&& actions.len() == 2
            &&& actions[0] matches ServiceAction::Publish(bytes)
            &&& actions[1] matches ServiceAction::ToHandler(HandlerMessage::OwnBlock(signed))
            &&& signed@.message == block@
            &&& signed@.signature == ed25519_signature(keypair, block@.bytes())
            &&& signed.wf() == block.wf()
            &&& bytes@ == GossipsubMessageView::Block(signed@).bytes()
            &&& block@.proposer == keypair_public(keypair) ==> signed@.signature_holds()
        },
        ServiceMessage::PropagateGossip(id, source) => {
            &&& actions.len() == 1
            &&& actions[0] matches ServiceAction::Propagate(i, s)
            &&& i@ == id@
            &&& s@ == source@
        },
    }
}

/// What the service asks for when the loop hands in `event`.
///
/// A line of input goes to the handler, with the service's public key. A
/// message of the overlay goes to the handler; a peer that joined or left a
/// topic is only noted. When the input or the overlay ends, the loop ends.
/// A message of the handler is served.
pub open spec fn stepped(keypair: Keypair, event: ServiceEvent, actions: Seq<ServiceAction>) -> bool {
    match event {
        ServiceEvent::Stdin(line) => {
            &&& actions.len() == 1
            &&& actions[0] matches ServiceAction::ToHandler(HandlerMessage::Stdin(text, key))
            &&& text@ == line@
            &&& key@ == keypair_public(keypair)
        },
        ServiceEvent::StdinClosed => actions.len() == 1 && actions[0] is Stop,
        ServiceEvent::OverlayClosed => actions.len() == 1 && actions[0] is Stop,
        ServiceEvent::Overlay(BehaviourEvent::GossipsubMessage { id, source, message }) => {
            &&& actions.len() == 1
            &&& actions[0] matches ServiceAction::ToHandler(HandlerMessage::Publish(i, s, m))
            &&& i@ == id@
            &&& s@ == source@
            &&& m@ == message@
            &&& m.wf() == message.wf()
        },
        ServiceEvent::Overlay(_) => actions.len() == 0,
        ServiceEvent::Handler(message) => served(keypair, message, actions),
    }
}

/// The name of the topic on which the blocks are published.
pub fn topic() -> (name: &'static str)
    ensures
        name@ == "monkey-chain"@,
{
    "monkey-chain"
}

/// The service of a node.
pub struct Service {
    local_keypair: Keypair,
}

impl Service {
    /// The keypair with which the service signs.
    pub closed spec fn keypair(&self) -> Keypair {
        self.local_keypair
    }

    /// The public key of the service, in compressed form.
    pub open spec fn public_key(&self) -> Seq<u8> {
        keypair_public(self.keypair())
    }

    /// A service that signs with `local_keypair`.
    pub fn new(local_keypair: Keypair) -> (service: Service)
        ensures
            service.keypair() == local_keypair,
    {
        Service { local_keypair }
    }

    /// The public key of the service.
    pub fn local_public_key(&self) -> (key: [u8; 32])
        ensures
            key@ == self.public_key(),
    {
        public_key_bytes(&self.local_keypair)
    }

    /// Answers an event of the loop.
    pub fn step(&self, event: ServiceEvent) -> (actions: Vec<ServiceAction>)
        requires
            event.wf(),
        ensures
            stepped(self.keypair(), event, actions@),
    {
        let mut actions: Vec<ServiceAction> = Vec::new();
        match event {
            ServiceEvent::Stdin(line) => {
                let key = self.local_public_key();
                actions.push(ServiceAction::ToHandler(HandlerMessage::Stdin(line, key)));
            },
            ServiceEvent::StdinClosed => {
                actions.push(ServiceAction::Stop);
            },
            ServiceEvent::OverlayClosed => {
                actions.push(ServiceAction::Stop);
            },
            ServiceEvent::Overlay(event) => match event {
                BehaviourEvent::GossipsubMessage { id, source, message } => {
                    actions.push(ServiceAction::ToHandler(HandlerMessage::Publish(id, source, message)));
                },
                BehaviourEvent::PeerSubscribed(peer, topic) => {},
                BehaviourEvent::PeerUnsubscribed(peer, topic) => {},
            },
            ServiceEvent::Handler(message) => {
                return self.handle_message(message);
            },
        }
        actions
    }

    /// Answers a message of the handler.
    pub fn handle_message(&self, service_msg: ServiceMessage) -> (actions: Vec<ServiceAction>)
        requires
            service_msg.wf(),
        ensures
            served(self.keypair(), service_msg, actions@),
    {
        let mut actions: Vec<ServiceAction> = Vec::new();
        match service_msg {
            ServiceMessage::NewBlock(block) => {
                let signed_block = block.sign(&self.local_keypair);
                let msg = GossipsubMessage::Block(Box::new(signed_block.clone()));
                match msg.encode() {
                    Ok(encoded_msg) => {
                        actions.push(ServiceAction::Publish(encoded_msg));
                        actions.push(ServiceAction::ToHandler(HandlerMessage::OwnBlock(signed_block)));
                    },
                    Err(e) => {},
                }
            },
            ServiceMessage::PropagateGossip(id, source) => {
                actions.push(ServiceAction::Propagate(id, source));
            },
        }
        actions
    }

    /// Writes the genesis record into `store`.
    pub fn import_genesis(store: &mut DiscStore) -> (r: Result<(), Error>)
        requires
            old(store).wf(),
        ensures
            final(store).wf(),
            genesis_written(old(store)@, final(store)@, r),
    {
        import_genesis(store)
    }

    /// Imports a block into `store`, see [`import_block`].
    pub fn import_block(store: &mut DiscStore, dictionary: &Dictionary, signed_block: &SignedBlock) -> (r: Result<
        (),
        Error,
    >)
        requires
            old(store).wf(),
            dictionary.wf(),
            signed_block.wf(),
        ensures
            final(store).wf(),
            imported(old(store)@, final(store)@, dictionary@, signed_block@, r),
    {
        import_block(store, dictionary, signed_block)
    }
}

} // verus!
