//! The handler: the worker that makes blocks of local input and imports the
//! blocks that the service hands to it.
//!
//! The handler owns the store. It takes one message at a time and answers
//! each with an outcome, which says what is to be sent back to the service or
//! shown on the display.

use vstd::prelude::*;
use crate::behaviour::types::{GossipsubMessage, MessageId, PeerId};
use crate::block::{body_digest, genesis_hash, wordset_error, Block, SignedBlock};
use crate::dictionary::Dictionary;
use crate::display::{Display, DisplayView, Placement};
use crate::errors::Error;
use crate::import::{genesis_written, import_block, import_genesis, imported, lemma_imported_ok};
use crate::service::ServiceMessage;
use crate::store::{DiscStore, StoreView};
use crate::text::{lowercase_tokens, tokenize};
use crate::words::views_of;

verus! {

/// What the service hands to the handler.
#[derive(Debug)]
pub enum HandlerMessage {
    /// A block that a peer published, with the identity of the message that
    /// brought it and the peer that sent it.
    Publish(MessageId, PeerId, GossipsubMessage),
    /// A block of this node, signed and published by the service.
    OwnBlock(SignedBlock),
    /// A line of local input, with the public key of this node.
    Stdin(String, [u8; 32]),
}

impl HandlerMessage {
    /// A block that the message carries is well formed.
    pub open spec fn wf(&self) -> bool {
        match self {
            HandlerMessage::Publish(id, source, message) => message.wf(),
            HandlerMessage::OwnBlock(signed) => signed.wf(),
            HandlerMessage::Stdin(line, key) => true,
        }
    }
}

/// What the handler answers to a message.
#[derive(Debug)]
pub enum HandlerOutcome {
    /// This is to be sent to the service.
    Forward(ServiceMessage),
    /// The line of input is no block: the display says so.
    InvalidInput(Error),
    /// The block of this node is in the store: the display draws it, with
    /// these lines at this place, and says that the block is valid.
    Appended(Placement, Vec<String>),
    /// The block was refused and is dropped.
    Ignored(Error),
}

/// What the handler holds: its store, the words of its
/// dictionary, and the state of its display.
pub struct HandlerView {
    pub store: StoreView,
    pub dictionary: Set<Seq<char>>,
    pub display: DisplayView,
}

/// What the handler has done with `message` when it answers `outcome`,
/// having held `before` and holding `after`.
///
/// A line of input is split into words, which are put into lower case; if
/// they make a block, it is forwarded as a child of the genesis record, and
/// else the error is reported. The handler holds what it held.
///
/// A block is imported. A block of this node that was imported is drawn; a
/// published block that was imported has its message propagated. A block
/// that was refused is ignored.
pub open spec fn handled(
    before: HandlerView,
    after: HandlerView,
    message: HandlerMessage,
    outcome: HandlerOutcome,
) -> bool {
    &&& after.dictionary == before.dictionary
    &&& match message {
        HandlerMessage::Stdin(line, key) => {
            let words = lowercase_tokens(line@).to_set();
            &&& after == before
            &&& match outcome {
                HandlerOutcome::Forward(ServiceMessage::NewBlock(block)) => {
                    &&& wordset_error(words, before.dictionary) is None
                    &&& block.wf()
                    &&& block@.words.to_set() == words
                    &&& block@.proposer == key@
                    &&& block@.parent_hash == genesis_hash()
                    &&& block@.hash == body_digest(block@.words)
                },
                HandlerOutcome::InvalidInput(e) => wordset_error(words, before.dictionary) == Some(e),
                _ => false,
            }
        },
        HandlerMessage::OwnBlock(signed) => match outcome {
            HandlerOutcome::Appended(placement, lines) => {
                &&& imported(before.store, after.store, before.dictionary, signed@, Ok(()))
                &&& placement == before.display.placement()
                &&& after.display == before.display.after_block()
                &&& views_of(lines@) == signed@.message.words
            },
            HandlerOutcome::Ignored(e) => {
                &&& imported(before.store, after.store, before.dictionary, signed@, Err(e))
                &&& after.display == before.display
            },
            _ => false,
        },
        HandlerMessage::Publish(id, source, GossipsubMessage::Block(signed)) => {
            &&& after.display == before.display
            &&& match outcome {
                HandlerOutcome::Forward(ServiceMessage::PropagateGossip(i, s)) => {
                    &&& imported(before.store, after.store, before.dictionary, signed@, Ok(()))
                    &&& i@ == id@
                    &&& s@ == source@
                },
                HandlerOutcome::Ignored(e) => imported(
                    before.store,
                    after.store,
                    before.dictionary,
                    signed@,
                    Err(e),
                ),
                _ => false,
            }
        },
    }
}

/// The worker that imports blocks.
pub struct Handler {
    store: DiscStore,
    dictionary: Dictionary,
    display: Display,
}

impl View for Handler {
    type V = HandlerView;

    closed spec fn view(&self) -> HandlerView {
        HandlerView { store: self.store@, dictionary: self.dictionary@, display: self.display@ }
    }
}

impl Handler {
    /// The store and the dictionary are well formed, and the display can
    /// draw.
    pub closed spec fn wf(&self) -> bool {
        self.store.wf() && self.dictionary.wf() && self.display@.wf()
    }

    /// A handler on `store`. The genesis record is written into the store
    /// first; if that fails, there is no handler.
    pub fn new(store: DiscStore, dictionary: Dictionary) -> (r: Result<Handler, Error>)
        requires
            store.wf(),
            dictionary.wf(),
        ensures
            match r {
                Ok(handler) => {
                    &&& handler.wf()
                    &&& genesis_written(store@, handler@.store, Ok(()))
                    &&& handler@.dictionary == dictionary@
                    &&& handler@.display == (DisplayView { column: 10, block_count: 1 })
                },
                Err(e) => e is DBError,
            },
    {
        let mut handler = Handler { store, dictionary, display: Display::new() };
        match handler.import_genesis() {
            Ok(_) => Ok(handler),
            Err(e) => Err(e),
        }
    }

    /// Takes a message of the service, does what it asks for, and answers
    /// what is to be done next.
    pub fn handle_message(&mut self, handler_msg: HandlerMessage) -> (outcome: HandlerOutcome)
        requires
            old(self).wf(),
            handler_msg.wf(),
        ensures
            final(self).wf(),
            handled(old(self)@, final(self)@, handler_msg, outcome),
    {
        match handler_msg {
            HandlerMessage::Stdin(msg, public_key) => {
                let wordlist = tokenize(msg.as_str());
                let (parent_hash, _, _) = Block::genesis_block();
                match Block::new(&self.dictionary, wordlist, public_key, parent_hash) {
                    Ok(block) => HandlerOutcome::Forward(ServiceMessage::NewBlock(block)),
                    Err(e) => HandlerOutcome::InvalidInput(e),
                }
            },
            HandlerMessage::OwnBlock(signed_block) => {
                let r = self.import_block(&signed_block);
                let ghost answer = r;
                match r {
                    Ok(_) => {
                        let body = signed_block.message().body();
                        proof {
                            body.lemma_wf();
                            lemma_imported_ok(
                                old(self)@.store,
                                self@.store,
                                self@.dictionary,
                                signed_block@,
                                answer,
                            );
                        }
                        let lines = signed_block.display();
                        let placement = self.display.new_block(&lines);
                        HandlerOutcome::Appended(placement, lines)
                    },
                    Err(e) => HandlerOutcome::Ignored(e),
                }
            },
            HandlerMessage::Publish(id, source, msg) => match msg {
                GossipsubMessage::Block(signed_block) => {
                    let r = self.import_block(&signed_block);
                    let ghost answer = r;
                    match r {
                        Ok(_) => {
                            proof {
                                lemma_imported_ok(
                                    old(self)@.store,
                                    self@.store,
                                    self@.dictionary,
                                    signed_block@,
                                    answer,
                                );
                            }
                            HandlerOutcome::Forward(ServiceMessage::PropagateGossip(id, source))
                        },
                        Err(e) => HandlerOutcome::Ignored(e),
                    }
                },
            },
        }
    }

    /// Writes the genesis record into the store.
    pub fn import_genesis(&mut self) -> (r: Result<(), Error>)
        requires
            old(self).wf(),
        ensures
            final(self).wf(),
            final(self)@.dictionary == old(self)@.dictionary,
            final(self)@.display == old(self)@.display,
            genesis_written(old(self)@.store, final(self)@.store, r),
    {
        import_genesis(&mut self.store)
    }

    /// Imports a block into the store, see [`import_block`].
    pub fn import_block(&mut self, signed_block: &SignedBlock) -> (r: Result<(), Error>)
        requires
            old(self).wf(),
            signed_block.wf(),
        ensures
            final(self).wf(),
            final(self)@.dictionary == old(self)@.dictionary,
            final(self)@.display == old(self)@.display,
            imported(old(self)@.store, final(self)@.store, old(self)@.dictionary, signed_block@, r),
    {
        import_block(&mut self.store, &self.dictionary, signed_block)
    }
}

} // verus!
