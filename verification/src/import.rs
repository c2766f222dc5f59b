//! Import: the procedure that admits a signed block into the store.
//!
//! A block is judged in a fixed order, the cheap questions first: its words,
//! its signature, whether the store finds its parent, and whether the store
//! finds the block itself. Only a block that passes all of them is written,
//! so a block that is refused leaves the store as it was.
//!
//! What the store finds is the store's answer and is taken as it comes:
//! [`import_decision`] says what follows from each answer, and
//! [`import_block`] asks the store and does what the decision says.

use vstd::prelude::*;
use crate::block::{genesis_hash, key_bytes, store_key, wordset_error, Block, SignedBlock, SignedBlockView};
use crate::dictionary::Dictionary;
use crate::errors::Error;
use crate::store::{found, DiscStore, Lookup, StoreView};

verus! {

/// What the store holds for the genesis record: the two bytes of its payload,
/// high byte first.
pub open spec fn genesis_value() -> Seq<u8> {
    seq![0x05u8, 0x39u8]
}

/// What becomes of a block, given what was found out about it: `words` is
/// what is wrong with its words, if anything; `signature_ok` is whether its
/// signature holds; `parent` and `own` are what the store found under the
/// hash of its parent and under its own hash. The first failure decides.
pub open spec fn import_outcome(
    words: Option<Error>,
    signature_ok: bool,
    parent: Option<Seq<u8>>,
    own: Option<Seq<u8>>,
) -> Result<(), Error> {
    if words is Some {
        Err(words.unwrap())
    } else if !signature_ok {
        Err(Error::InvalidSignature)
    } else if parent is None {
        Err(Error::UnknownParentBlock)
    } else if own is Some {
        Err(Error::DuplicateBlock)
    } else {
        Ok(())
    }
}

/// What the store is asked when a block is imported: nothing, if the words
/// or the signature of the block are bad; else the hash of the block's
/// parent; and, only if the parent was found, the block's own hash.
pub open spec fn asked(
    words: Option<Error>,
    signature_ok: bool,
    block: SignedBlockView,
    parent: Option<Seq<u8>>,
    own: Option<Seq<u8>>,
) -> Seq<Lookup> {
    if words is Some || !signature_ok {
        Seq::empty()
    } else if parent is None {
        seq![(Lookup { key: key_bytes(block.message.parent_hash), found: parent })]
    } else {
        seq![
            (Lookup { key: key_bytes(block.message.parent_hash), found: parent }),
            (Lookup { key: key_bytes(block.message.hash), found: own }),
        ]
    }
}

/// What a store has written whose record was `before` and is now `after`,
/// when the genesis record was to be written and the answer was `r`.
pub open spec fn genesis_written(before: StoreView, after: StoreView, r: Result<(), Error>) -> bool {
    &&& after.lookups == before.lookups
    &&& match r {
        Ok(_) => {
            &&& !before.failed
            &&& !after.failed
            &&& after.entries == before.entries.insert(key_bytes(genesis_hash()), genesis_value())
        },
        Err(e) => e is DBError && after.failed && after.entries == before.entries,
    }
}

/// What an import of `block` that answered `r` has done to a store whose
/// record was `before` and is now `after`, if the database answered `parent`
/// for the hash of the block's parent and `own` for the block's own hash.
///
/// The store was asked what [`asked`] says, and nothing else. A block that is
/// refused is refused with the error of [`import_outcome`], and nothing is
/// written. A block that is admitted is written under its hash, unless the
/// write fails with `DBError`.
pub open spec fn imported_with(
    before: StoreView,
    after: StoreView,
    dictionary: Set<Seq<char>>,
    block: SignedBlockView,
    parent: Option<Seq<u8>>,
    own: Option<Seq<u8>>,
    r: Result<(), Error>,
) -> bool {
    let words = wordset_error(block.message.words.to_set(), dictionary);
    let signature_ok = block.signature_holds();
    &&& after.lookups == before.lookups + asked(words, signature_ok, block, parent, own)
    &&& match import_outcome(words, signature_ok, parent, own) {
        Err(e) => {
            &&& r == Err::<(), Error>(e)
            &&& after.entries == before.entries
            &&& after.failed == before.failed
        },
        Ok(_) => match r {
            Ok(_) => {
                &&& !before.failed
                &&& !after.failed
                &&& after.entries == before.entries.insert(key_bytes(block.message.hash), block.bytes())
            },
            Err(e) => e is DBError && after.failed && after.entries == before.entries,
        },
    }
}

/// What an import of `block` that answered `r` has done to the store,
/// whatever the database answered.
pub open spec fn imported(
    before: StoreView,
    after: StoreView,
    dictionary: Set<Seq<char>>,
    block: SignedBlockView,
    r: Result<(), Error>,
) -> bool {
    exists|parent: Option<Seq<u8>>, own: Option<Seq<u8>>|
        imported_with(before, after, dictionary, block, parent, own, r)
}

/// An import that succeeded has done what an import that answers `Ok(())`
/// does.
pub proof fn lemma_imported_ok(
    before: StoreView,
    after: StoreView,
    dictionary: Set<Seq<char>>,
    block: SignedBlockView,
    r: Result<(), Error>,
)
    requires
        imported(before, after, dictionary, block, r),
        r is Ok,
    ensures
        imported(before, after, dictionary, block, Ok(())),
{
    let (parent, own) = choose|parent: Option<Seq<u8>>, own: Option<Seq<u8>>|
        imported_with(before, after, dictionary, block, parent, own, r);
    assert(imported_with(before, after, dictionary, block, parent, own, Ok(())));
}

/// A block whose words or signature are bad is refused before the store is
/// touched: the store is asked nothing, and its record is as it was.
pub proof fn lemma_refused_unasked(
    before: StoreView,
    after: StoreView,
    dictionary: Set<Seq<char>>,
    block: SignedBlockView,
    r: Result<(), Error>,
)
    requires
        imported(before, after, dictionary, block, r),
        wordset_error(block.message.words.to_set(), dictionary) is Some || !block.signature_holds(),
    ensures
        after == before,
        r is Err,
        wordset_error(block.message.words.to_set(), dictionary) matches Some(e) ==> r->Err_0 == e,
        wordset_error(block.message.words.to_set(), dictionary) is None ==> r->Err_0 is InvalidSignature,
{
    assert(after.lookups =~= before.lookups);
}

/// Importing twice: if a block was imported, and the database then finds the
/// block and its parent, a second import of the block is refused with
/// `DuplicateBlock` and writes nothing.
pub proof fn lemma_import_twice(
    first: StoreView,
    second: StoreView,
    third: StoreView,
    dictionary: Set<Seq<char>>,
    block: SignedBlockView,
    parent: Option<Seq<u8>>,
    own: Option<Seq<u8>>,
    r1: Result<(), Error>,
    r2: Result<(), Error>,
)
    requires
        imported(first, second, dictionary, block, r1),
        r1 is Ok,
        imported_with(second, third, dictionary, block, parent, own, r2),
        parent is Some,
        own is Some,
    ensures
        second.entries == first.entries.insert(key_bytes(block.message.hash), block.bytes()),
        r2 == Err::<(), Error>(Error::DuplicateBlock),
        third.entries == second.entries,
        third.failed == second.failed,
{
}

/// A block with valid words and a valid signature whose parent the database
/// does not find is refused with `UnknownParentBlock`. Only the parent was
/// asked for, and nothing is written.
pub proof fn lemma_unknown_parent(
    before: StoreView,
    after: StoreView,
    dictionary: Set<Seq<char>>,
    block: SignedBlockView,
    own: Option<Seq<u8>>,
    r: Result<(), Error>,
)
    requires
        imported_with(before, after, dictionary, block, None, own, r),
        wordset_error(block.message.words.to_set(), dictionary) is None,
        block.signature_holds(),
    ensures
        r == Err::<(), Error>(Error::UnknownParentBlock),
        after.entries == before.entries,
        after.failed == before.failed,
        after.lookups == before.lookups.push(
            (Lookup { key: key_bytes(block.message.parent_hash), found: None }),
        ),
{
    assert(before.lookups + seq![(Lookup { key: key_bytes(block.message.parent_hash), found: None })]
        =~= before.lookups.push((Lookup { key: key_bytes(block.message.parent_hash), found: None })));
}

/// A block with valid words and a valid signature, whose parent the database
/// finds and which the database does not find, is admitted: it is written
/// under its hash, unless the write fails with `DBError`.
pub proof fn lemma_admitted(
    before: StoreView,
    after: StoreView,
    dictionary: Set<Seq<char>>,
    block: SignedBlockView,
    parent: Seq<u8>,
    r: Result<(), Error>,
)
    requires
        imported_with(before, after, dictionary, block, Some(parent), None, r),
        wordset_error(block.message.words.to_set(), dictionary) is None,
        block.signature_holds(),
    ensures
        r is Ok ==> after.entries == before.entries.insert(key_bytes(block.message.hash), block.bytes()),
        r is Ok ==> !after.failed,
        r is Err ==> r->Err_0 is DBError && after.failed && after.entries == before.entries,
{
}

/// A block that is refused leaves no trace: whatever the database answered,
/// an import that answers with an error writes nothing, so that the block can
/// be delivered again and is judged as before.
pub proof fn lemma_refused_unchanged(
    before: StoreView,
    after: StoreView,
    dictionary: Set<Seq<char>>,
    block: SignedBlockView,
    r: Result<(), Error>,
)
    requires
        imported(before, after, dictionary, block, r),
        r is Err,
    ensures
        after.entries == before.entries,
{
}

/// Decides what becomes of a block, given what was found out about it, see
/// [`import_outcome`].
pub fn import_decision(
    words: Option<Error>,
    signature_ok: bool,
    parent: Option<Vec<u8>>,
    own: Option<Vec<u8>>,
) -> (r: Result<(), Error>)
    ensures
        r == import_outcome(words, signature_ok, found(parent), found(own)),
{
    if let Some(e) = words {
        return Err(e);
    }
    if !signature_ok {
        return Err(Error::InvalidSignature);
    }
    if parent.is_none() {
        return Err(Error::UnknownParentBlock);
    }
    if own.is_some() {
        return Err(Error::DuplicateBlock);
    }
    Ok(())
}

/// Writes the genesis record, the root of every chain, into the store.
pub fn import_genesis(store: &mut DiscStore) -> (r: Result<(), Error>)
    requires
        old(store).wf(),
    ensures
        final(store).wf(),
        genesis_written(old(store)@, final(store)@, r),
{
    let (_, key, value) = Block::genesis_block();
    store.put(key.as_slice(), value.as_slice())
}

/// Imports `signed_block`: judges its words against the dictionary and its
/// signature, asks the store for its parent and for the block itself, and
/// writes the block under its hash if [`import_decision`] admits it. The
/// store is asked only about a block whose words and signature are good, and
/// for the block itself only if its parent was found.
pub fn import_block(store: &mut DiscStore, dictionary: &Dictionary, signed_block: &SignedBlock) -> (r: Result<
    (),
    Error,
>)
    requires
        old(store).wf(),
        dictionary.wf(),
        signed_block.wf(),
    ensures
        final(store).wf(),
        imported(old(store)@, final(store)@, dictionary@, signed_block@, r),
{
    let block = signed_block.message();
    let words = block.check(dictionary);
    if words.is_some() {
        let r = import_decision(words, false, None, None);
        proof {
            assert(store@.lookups + Seq::<Lookup>::empty() =~= store@.lookups);
            assert(imported_with(old(store)@, store@, dictionary@, signed_block@, None, None, r));
        }
        return r;
    }
    if !signed_block.verify_signature() {
        let r = import_decision(None, false, None, None);
        proof {
            assert(store@.lookups + Seq::<Lookup>::empty() =~= store@.lookups);
            assert(imported_with(old(store)@, store@, dictionary@, signed_block@, None, None, r));
        }
        return r;
    }
    let block_hash = store_key(block.hash());
    let parent_hash = store_key(block.parent_hash());
    let parent = store.get(parent_hash.as_slice());
    let own = match parent {
        Some(_) => store.get(block_hash.as_slice()),
        None => None,
    };
    let ghost p = found(parent);
    let ghost o = found(own);
    proof {
        let first = Lookup { key: key_bytes(signed_block@.message.parent_hash), found: p };
        let second = Lookup { key: key_bytes(signed_block@.message.hash), found: o };
        if p is None {
            assert(old(store)@.lookups + seq![first] =~= old(store)@.lookups.push(first));
        } else {
            assert(old(store)@.lookups + seq![first, second] =~= old(store)@.lookups.push(first).push(second));
        }
    }
    match import_decision(None, true, parent, own) {
        Ok(_) => {
            let signed_block_bytes = signed_block.to_bytes();
            let r = store.put(block_hash.as_slice(), signed_block_bytes.as_slice());
            assert(imported_with(old(store)@, store@, dictionary@, signed_block@, p, o, r));
            r
        },
        Err(e) => {
            assert(imported_with(old(store)@, store@, dictionary@, signed_block@, p, o, Err(e)));
            Err(e)
        },
    }
}

} // verus!
