//! Blocks: their content, their identity and their authenticity.
//!
//! A block body is a set of exactly [`BLOCK_WORDSET_LENGTH`] words of the
//! dictionary. A block carries a body, the public key of its proposer, the
//! hash of its parent and the time at which it was made. Its own hash is the
//! digest of its body alone: two blocks with the same words have the same
//! hash, whoever proposed them and whenever. The digest is std's
//! `DefaultHasher` over the canonical form of the body: the number of words as
//! eight little-endian bytes, then each word in order as its UTF-8 bytes
//! followed by the byte `0xff`.
//!
//! A signed block adds the proposer's Ed25519 signature over the canonical
//! bytes of the block, see [`BlockView::bytes`].
//!
//! The layout of the canonical bytes is this library's own. Integers are
//! written in little-endian order at their full width, and every string of
//! bytes of varying length behind its length as eight bytes: the number of
//! words; each word in order; the 32 bytes of the proposer's key; the hash;
//! the parent's hash; and the time, as eight bytes of seconds and four bytes
//! of nanoseconds.

use vstd::prelude::*;
use vstd::bytes::u64_to_le_bytes;
use vstd::utf8::*;
use vstd::std_specs::hash::DefaultHasherAdditionalSpecFns;
use std::collections::hash_map::DefaultHasher;
use std::hash::Hasher;
use libp2p::identity::ed25519::Keypair;
use crate::clock::{now, Timestamp};
use crate::dictionary::Dictionary;
use crate::errors::Error;
use crate::identity::{ed25519_accepts, ed25519_sign, ed25519_signature, ed25519_verify, keypair_public};
use crate::wire::{chunk, i64_bytes, put_chunk, put_fixed, put_i64, put_u32, put_u64, u32_bytes, u64_bytes};
use crate::words::{lemma_sorted_no_duplicates, strictly_sorted, views_of, WordSet};

verus! {

/// The number of distinct words of a block body.
pub const BLOCK_WORDSET_LENGTH: usize = 4;

/// The payload of the genesis record.
pub const GENESIS_BLOCK_DATA: u16 = 1337;

/// Why a set of words cannot be the body of a block, if it cannot. The number
/// of words is judged first, then their membership in the dictionary.
pub open spec fn wordset_error(words: Set<Seq<char>>, dictionary: Set<Seq<char>>) -> Option<Error> {
    if words.len() != BLOCK_WORDSET_LENGTH {
        Some(Error::InvalidWordsetLength)
    } else if !words.subset_of(dictionary) {
        Some(Error::InvalidWordset)
    } else {
        None
    }
}

/// What the hasher is fed for the words: each word's UTF-8 bytes, then `0xff`.
pub open spec fn word_writes(words: Seq<Seq<char>>) -> Seq<Seq<u8>>
    decreases words.len(),
{
    if words.len() == 0 {
        Seq::empty()
    } else {
        word_writes(words.drop_last()).push(encode_utf8(words.last())).push(seq![0xffu8])
    }
}

/// What the hasher is fed for a body: the number of words, then the words.
pub open spec fn digest_writes(words: Seq<Seq<char>>) -> Seq<Seq<u8>> {
    seq![u64_bytes(words.len() as u64)] + word_writes(words)
}

/// The digest of a body, which is the hash of every block that has it.
pub open spec fn body_digest(words: Seq<Seq<char>>) -> u64 {
    DefaultHasher::spec_finish(digest_writes(words))
}

/// The hash of the genesis record: the digest of the two bytes of
/// [`GENESIS_BLOCK_DATA`], low byte first.
pub open spec fn genesis_hash() -> u64 {
    DefaultHasher::spec_finish(seq![seq![0x39u8, 0x05u8]])
}

/// The key under which the store holds the block with hash `hash`: the eight
/// bytes of the hash, highest first.
pub open spec fn key_bytes(hash: u64) -> Seq<u8> {
    u64_bytes(hash).reverse()
}

/// The words of a body, one chunk of UTF-8 bytes after the other.
pub open spec fn words_payload(words: Seq<Seq<char>>) -> Seq<u8>
    decreases words.len(),
{
    if words.len() == 0 {
        Seq::empty()
    } else {
        chunk(encode_utf8(words.first())) + words_payload(words.drop_first())
    }
}

/// The canonical bytes of a body: the number of words, then the words.
pub open spec fn words_bytes(words: Seq<Seq<char>>) -> Seq<u8> {
    u64_bytes(words.len() as u64) + words_payload(words)
}

/// The payload of a sequence of words with one more word behind it.
pub proof fn lemma_words_payload_push(words: Seq<Seq<char>>, word: Seq<char>)
    ensures
        words_payload(words.push(word)) == words_payload(words) + chunk(encode_utf8(word)),
    decreases words.len(),
{
    let more = words.push(word);
    if words.len() == 0 {
        assert(more.first() == word);
        assert(more.drop_first() =~= Seq::<Seq<char>>::empty());
        assert(words_payload(more.drop_first()) =~= Seq::<u8>::empty());
        assert(words_payload(words) =~= Seq::<u8>::empty());
        assert(words_payload(more) =~= words_payload(words) + chunk(encode_utf8(word)));
    } else {
        assert(more.first() == words.first());
        assert(more.drop_first() =~= words.drop_first().push(word));
        lemma_words_payload_push(words.drop_first(), word);
        assert(words_payload(more) =~= words_payload(words) + chunk(encode_utf8(word)));
    }
}

/// The mathematical content of a block.
pub struct BlockView {
    pub words: Seq<Seq<char>>,
    pub proposer: Seq<u8>,
    pub hash: u64,
    pub parent_hash: u64,
    pub timestamp: Timestamp,
}

impl BlockView {
    /// The canonical bytes of the block: what is signed, and part of what is
    /// stored and sent.
    pub open spec fn bytes(self) -> Seq<u8> {
        words_bytes(self.words) + self.proposer + u64_bytes(self.hash) + u64_bytes(self.parent_hash)
            + i64_bytes(self.timestamp.secs) + u32_bytes(self.timestamp.nanos)
    }

    /// The words are in order and distinct, the key has its 32 bytes, and
    /// every length fits the eight bytes in which it is written.
    pub open spec fn wf(self) -> bool {
        &&& strictly_sorted(self.words)
        &&& self.proposer.len() == 32
        &&& self.words.len() <= u64::MAX
        &&& forall|i: int| 0 <= i < self.words.len() ==> encode_utf8(#[trigger] self.words[i]).len() <= u64::MAX
    }
}

/// The mathematical content of a signed block.
pub struct SignedBlockView {
    pub message: BlockView,
    pub signature: Seq<u8>,
}

impl SignedBlockView {
    /// The canonical bytes of the signed block: those of the block, then the
    /// signature as a chunk.
    pub open spec fn bytes(self) -> Seq<u8> {
        self.message.bytes() + chunk(self.signature)
    }

    /// The block is well formed and the signature's length fits its prefix.
    pub open spec fn wf(self) -> bool {
        self.message.wf() && self.signature.len() <= u64::MAX
    }

    /// The signature is the proposer's, over the canonical bytes of the block.
    pub open spec fn signature_holds(self) -> bool {
        ed25519_accepts(self.message.proposer, self.message.bytes(), self.signature)
    }
}

/// The words of a block.
#[derive(Debug)]
pub struct BlockBody {
    wordset: WordSet,
}

impl View for BlockBody {
    type V = Seq<Seq<char>>;

    closed spec fn view(&self) -> Seq<Seq<char>> {
        self.wordset@
    }
}

impl Clone for BlockBody {
    fn clone(&self) -> (copy: BlockBody)
        ensures
            copy@ == self@,
            copy.wf() == self.wf(),
    {
        BlockBody { wordset: self.wordset.clone() }
    }
}

impl BlockBody {
    /// The words are kept in order and without repetition.
    pub closed spec fn wf(&self) -> bool {
        self.wordset.wf()
    }

    /// What being well formed means for the words.
    pub proof fn lemma_wf(&self)
        requires
            self.wf(),
        ensures
            strictly_sorted(self@),
            self@.no_duplicates(),
            self@.to_set().len() == self@.len(),
    {
        lemma_sorted_no_duplicates(self@);
    }

    /// The body made of the words of `wordlist`, each counted once, if they
    /// are [`BLOCK_WORDSET_LENGTH`] words of the dictionary.
    pub fn new(dictionary: &Dictionary, wordlist: Vec<String>) -> (r: Result<BlockBody, Error>)
        requires
            dictionary.wf(),
        ensures
            match r {
                Ok(body) => body.wf() && body@.to_set() == views_of(wordlist@).to_set() && wordset_error(
                    body@.to_set(),
                    dictionary@,
                ) is None,
                Err(e) => wordset_error(views_of(wordlist@).to_set(), dictionary@) == Some(e),
            },
    {
        let body = BlockBody { wordset: WordSet::from_words(wordlist) };
        body.validate(dictionary)
    }

    /// Wraps a set of words, whatever it holds.
    pub(crate) fn from_wordset(wordset: WordSet) -> (body: BlockBody)
        ensures
            body@ == wordset@,
            body.wf() == wordset.wf(),
    {
        BlockBody { wordset }
    }

    /// Hands the body back if it holds [`BLOCK_WORDSET_LENGTH`] words, all of
    /// the dictionary.
    pub fn validate(self, dictionary: &Dictionary) -> (r: Result<BlockBody, Error>)
        requires
            self.wf(),
            dictionary.wf(),
        ensures
            match r {
                Ok(body) => body == self && wordset_error(self@.to_set(), dictionary@) is None,
                Err(e) => wordset_error(self@.to_set(), dictionary@) == Some(e),
            },
    {
        match self.validate_length() {
            Ok(body) => body.validate_subset(dictionary),
            Err(e) => Err(e),
        }
    }

    /// Hands the body back if all its words are in the dictionary.
    pub fn validate_subset(self, dictionary: &Dictionary) -> (r: Result<BlockBody, Error>)
        requires
            self.wf(),
            dictionary.wf(),
        ensures
            self@.to_set().subset_of(dictionary@) ==> r == Ok::<BlockBody, Error>(self),
            !self@.to_set().subset_of(dictionary@) ==> r == Err::<BlockBody, Error>(Error::InvalidWordset),
    {
        if dictionary.contains_all(&self.wordset) {
            Ok(self)
        } else {
            Err(Error::InvalidWordset)
        }
    }

    /// Hands the body back if it holds [`BLOCK_WORDSET_LENGTH`] words.
    pub fn validate_length(self) -> (r: Result<BlockBody, Error>)
        requires
            self.wf(),
        ensures
            self@.to_set().len() == BLOCK_WORDSET_LENGTH ==> r == Ok::<BlockBody, Error>(self),
            self@.to_set().len() != BLOCK_WORDSET_LENGTH ==> r == Err::<BlockBody, Error>(
                Error::InvalidWordsetLength,
            ),
    {
        if self.wordset.len() == BLOCK_WORDSET_LENGTH {
            Ok(self)
        } else {
            Err(Error::InvalidWordsetLength)
        }
    }

    /// The words, in order.
    pub fn words(&self) -> (words: &WordSet)
        ensures
            words@ == self@,
            words.wf() == self.wf(),
    {
        &self.wordset
    }

    /// The digest of the body.
    pub fn digest(&self) -> (hash: u64)
        ensures
            hash == body_digest(self@),
    {
        let mut hasher = DefaultHasher::new();
        let n = self.wordset.len();
        let count = u64_to_le_bytes(n as u64);
        hasher.write(count.as_slice());
        let mark: [u8; 1] = [0xff];
        assert(mark@ =~= seq![0xffu8]);
        assert(self@.subrange(0, 0) =~= Seq::<Seq<char>>::empty());
        assert(hasher@ =~= seq![u64_bytes(n as u64)] + word_writes(self@.subrange(0, 0)));
        let mut i: usize = 0;
        while i < n
            invariant
                i <= n,
                n == self@.len(),
                self@ == self.wordset@,
                mark@ == seq![0xffu8],
                hasher@ == seq![u64_bytes(n as u64)] + word_writes(self@.subrange(0, i as int)),
            decreases n - i,
        {
            let word = self.wordset.word(i);
            hasher.write(word.as_str().as_bytes());
            hasher.write(mark.as_slice());
            proof {
                let next = self@.subrange(0, i + 1);
                assert(next.drop_last() =~= self@.subrange(0, i as int));
                assert(next.last() == self@[i as int]);
            }
            i += 1;
        }
        assert(self@.subrange(0, n as int) =~= self@);
        hasher.finish()
    }

    /// Appends the canonical bytes of the body.
    pub fn write_to(&self, out: &mut Vec<u8>)
        ensures
            final(out)@ == old(out)@ + words_bytes(self@),
            self@.len() <= u64::MAX,
            forall|i: int| 0 <= i < self@.len() ==> encode_utf8(#[trigger] self@[i]).len() <= u64::MAX,
    {
        let n = self.wordset.len();
        put_u64(out, n as u64);
        assert(self@.subrange(0, 0) =~= Seq::<Seq<char>>::empty());
        assert(out@ =~= old(out)@ + u64_bytes(n as u64) + words_payload(self@.subrange(0, 0)));
        let mut i: usize = 0;
        while i < n
            invariant
                i <= n,
                n == self@.len(),
                self@ == self.wordset@,
                out@ == old(out)@ + u64_bytes(n as u64) + words_payload(self@.subrange(0, i as int)),
                forall|j: int| 0 <= j < i ==> encode_utf8(#[trigger] self@[j]).len() <= u64::MAX,
            decreases n - i,
        {
            let word = self.wordset.word(i);
            let ghost before = out@;
            put_chunk(out, word.as_str().as_bytes());
            proof {
                let done = self@.subrange(0, i as int);
                assert(self@.subrange(0, i + 1) =~= done.push(self@[i as int]));
                lemma_words_payload_push(done, self@[i as int]);
                assert(out@ =~= old(out)@ + u64_bytes(n as u64) + words_payload(self@.subrange(0, i + 1)));
            }
            i += 1;
        }
        assert(self@.subrange(0, n as int) =~= self@);
        assert(out@ =~= old(out)@ + words_bytes(self@));
    }
}

/// A block: words, proposer, hash, parent and time.
#[derive(Debug)]
pub struct Block {
    body: BlockBody,
    proposer: [u8; 32],
    pub hash: u64,
    pub parent_hash: u64,
    timestamp: Timestamp,
}

impl View for Block {
    type V = BlockView;

    closed spec fn view(&self) -> BlockView {
        BlockView {
            words: self.body@,
            proposer: self.proposer@,
            hash: self.hash,
            parent_hash: self.parent_hash,
            timestamp: self.timestamp,
        }
    }
}

impl Clone for Block {
    fn clone(&self) -> (copy: Block)
        ensures
            copy@ == self@,
            copy.wf() == self.wf(),
    {
        Block {
            body: self.body.clone(),
            proposer: self.proposer,
            hash: self.hash,
            parent_hash: self.parent_hash,
            timestamp: self.timestamp,
        }
    }
}

impl Block {
    /// The body is well formed.
    pub closed spec fn wf(&self) -> bool {
        self.body.wf()
    }

    /// What being well formed means for the content.
    pub proof fn lemma_wf(&self)
        ensures
            self@.proposer.len() == 32,
            self.wf() ==> strictly_sorted(self@.words),
    {
    }

    /// A block of the words of `wordlist`, proposed by the holder of
    /// `proposer` as a child of the block with hash `parent_hash`, and made
    /// now. It is refused unless the words, each counted once, are
    /// [`BLOCK_WORDSET_LENGTH`] words of the dictionary.
    pub fn new(dictionary: &Dictionary, wordlist: Vec<String>, proposer: [u8; 32], parent_hash: u64) -> (r:
        Result<Block, Error>)
        requires
            dictionary.wf(),
        ensures
            match r {
                Ok(block) => {
                    &&& wordset_error(views_of(wordlist@).to_set(), dictionary@) is None
                    &&& block.wf()
                    &&& block@.words.to_set() == views_of(wordlist@).to_set()
                    &&& block@.proposer == proposer@
                    &&& block@.parent_hash == parent_hash
                    &&& block@.hash == body_digest(block@.words)
                },
                Err(e) => wordset_error(views_of(wordlist@).to_set(), dictionary@) == Some(e),
            },
    {
        Block::stamped(dictionary, wordlist, proposer, parent_hash, now())
    }

    /// The block that [`Block::new`] makes at the time `timestamp`.
    pub fn stamped(
        dictionary: &Dictionary,
        wordlist: Vec<String>,
        proposer: [u8; 32],
        parent_hash: u64,
        timestamp: Timestamp,
    ) -> (r: Result<Block, Error>)
        requires
            dictionary.wf(),
        ensures
            match r {
                Ok(block) => {
                    &&& wordset_error(views_of(wordlist@).to_set(), dictionary@) is None
                    &&& block.wf()
                    &&& block@.words.to_set() == views_of(wordlist@).to_set()
                    &&& block@.proposer == proposer@
                    &&& block@.parent_hash == parent_hash
                    &&& block@.hash == body_digest(block@.words)
                    &&& block@.timestamp == timestamp
                },
                Err(e) => wordset_error(views_of(wordlist@).to_set(), dictionary@) == Some(e),
            },
    {
        match BlockBody::new(dictionary, wordlist) {
            Ok(body) => {
                let hash = body.digest();
                Ok(Block { body, proposer, hash, parent_hash, timestamp })
            },
            Err(e) => Err(e),
        }
    }

    /// Puts a block together from its parts, whatever they hold.
    pub(crate) fn from_parts(
        body: BlockBody,
        proposer: [u8; 32],
        hash: u64,
        parent_hash: u64,
        timestamp: Timestamp,
    ) -> (block: Block)
        ensures
            block.wf() == body.wf(),
            block@ == (BlockView { words: body@, proposer: proposer@, hash, parent_hash, timestamp }),
    {
        Block { body, proposer, hash, parent_hash, timestamp }
    }

    /// Hands the block back if its body holds [`BLOCK_WORDSET_LENGTH`] words,
    /// all of the dictionary.
    pub fn validate(self, dictionary: &Dictionary) -> (r: Result<Block, Error>)
        requires
            self.wf(),
            dictionary.wf(),
        ensures
            match r {
                Ok(block) => block == self && wordset_error(self@.words.to_set(), dictionary@) is None,
                Err(e) => wordset_error(self@.words.to_set(), dictionary@) == Some(e),
            },
    {
        match self.check(dictionary) {
            None => Ok(self),
            Some(e) => Err(e),
        }
    }

    /// Why the body cannot be the body of a block, if it cannot.
    pub fn check(&self, dictionary: &Dictionary) -> (r: Option<Error>)
        requires
            self.wf(),
            dictionary.wf(),
        ensures
            r == wordset_error(self@.words.to_set(), dictionary@),
    {
        if self.body.words().len() != BLOCK_WORDSET_LENGTH {
            Some(Error::InvalidWordsetLength)
        } else if !dictionary.contains_all(self.body.words()) {
            Some(Error::InvalidWordset)
        } else {
            None
        }
    }

    /// Signs the block: adds to it the signature of its canonical bytes under
    /// `keypair`. If the block's proposer is the public key of `keypair`, the
    /// signature holds.
    pub fn sign(self, keypair: &Keypair) -> (signed: SignedBlock)
        ensures
            signed@.message == self@,
            signed@.signature == ed25519_signature(*keypair, self@.bytes()),
            signed.wf() == self.wf(),
            signed@.signature.len() == 64,
            self@.proposer == keypair_public(*keypair) ==> signed@.signature_holds(),
    {
        let message = self.to_bytes();
        let signature = ed25519_sign(keypair, message.as_slice());
        SignedBlock { message: self, signature }
    }

    /// The genesis record: its hash, the key under which the store holds it,
    /// and what the store holds under that key.
    pub fn genesis_block() -> (r: (u64, Vec<u8>, Vec<u8>))
        ensures
            r.0 == genesis_hash(),
            r.1@ == key_bytes(genesis_hash()),
            r.2@ == seq![0x05u8, 0x39u8],
    {
        let data: u16 = GENESIS_BLOCK_DATA;
        let high: u8 = (data >> 8) as u8;
        let low: u8 = (data & 0xff) as u8;
        assert(high == 0x05 && low == 0x39) by (bit_vector)
            requires
                data == 1337,
                high == (data >> 8) as u8,
                low == (data & 0xff) as u8,
        ;
        let mut hasher = DefaultHasher::new();
        let bytes: [u8; 2] = [low, high];
        assert(bytes@ =~= seq![0x39u8, 0x05u8]);
        hasher.write(bytes.as_slice());
        assert(hasher@ =~= seq![seq![0x39u8, 0x05u8]]);
        let hash = hasher.finish();
        let mut value: Vec<u8> = Vec::new();
        value.push(high);
        value.push(low);
        assert(value@ =~= seq![0x05u8, 0x39u8]);
        (hash, store_key(hash), value)
    }

    /// The words of the block.
    pub fn body(&self) -> (body: &BlockBody)
        ensures
            body@ == self@.words,
            body.wf() == self.wf(),
    {
        &self.body
    }

    /// The hash of the block.
    pub fn hash(&self) -> (hash: u64)
        ensures
            hash == self@.hash,
    {
        self.hash
    }

    /// The hash of the parent.
    pub fn parent_hash(&self) -> (hash: u64)
        ensures
            hash == self@.parent_hash,
    {
        self.parent_hash
    }

    /// The public key of the proposer.
    pub fn proposer(&self) -> (key: &[u8; 32])
        ensures
            key@ == self@.proposer,
    {
        &self.proposer
    }

    /// The time at which the block was made.
    pub fn timestamp(&self) -> (t: Timestamp)
        ensures
            t == self@.timestamp,
    {
        self.timestamp
    }

    /// Appends the canonical bytes of the block.
    pub fn write_to(&self, out: &mut Vec<u8>)
        ensures
            final(out)@ == old(out)@ + self@.bytes(),
            self.wf() ==> self@.wf(),
    {
        self.body.write_to(out);
        put_fixed(out, self.proposer.as_slice());
        put_u64(out, self.hash);
        put_u64(out, self.parent_hash);
        put_i64(out, self.timestamp.secs);
        put_u32(out, self.timestamp.nanos);
        proof {
            assert(out@ =~= old(out)@ + self@.bytes());
            if self.wf() {
                self.body.lemma_wf();
            }
        }
    }

    /// The canonical bytes of the block.
    pub fn to_bytes(&self) -> (bytes: Vec<u8>)
        ensures
            bytes@ == self@.bytes(),
            self.wf() ==> self@.wf(),
    {
        let mut out: Vec<u8> = Vec::new();
        self.write_to(&mut out);
        assert(out@ =~= self@.bytes());
        out
    }
}

/// The key under which the store holds the block with hash `hash`.
pub fn store_key(hash: u64) -> (key: Vec<u8>)
    ensures
        key@ == key_bytes(hash),
{
    let low = u64_to_le_bytes(hash);
    let mut key: Vec<u8> = Vec::new();
    let mut i: usize = 8;
    while i > 0
        invariant
            i <= 8,
            low@ == u64_bytes(hash),
            low@.len() == 8,
            key@.len() == 8 - i,
            forall|j: int| 0 <= j < key@.len() ==> key@[j] == low@[7 - j],
        decreases i,
    {
        i -= 1;
        key.push(low[i]);
    }
    assert(key@ =~= low@.reverse());
    key
}

/// A block with the signature of its proposer.
#[derive(Debug)]
pub struct SignedBlock {
    pub message: Block,
    signature: Vec<u8>,
}

impl View for SignedBlock {
    type V = SignedBlockView;

    closed spec fn view(&self) -> SignedBlockView {
        SignedBlockView { message: self.message@, signature: self.signature@ }
    }
}

impl Clone for SignedBlock {
    fn clone(&self) -> (copy: SignedBlock)
        ensures
            copy@ == self@,
            copy.wf() == self.wf(),
    {
        SignedBlock { message: self.message.clone(), signature: self.signature.clone() }
    }
}

impl SignedBlock {
    /// The block is well formed.
    pub closed spec fn wf(&self) -> bool {
        self.message.wf()
    }

    /// The block that was signed.
    pub fn message(&self) -> (message: &Block)
        ensures
            message@ == self@.message,
            message.wf() == self.wf(),
    {
        &self.message
    }

    /// A block with a signature, whatever the signature is.
    pub fn new(message: Block, signature: Vec<u8>) -> (signed: SignedBlock)
        ensures
            signed.wf() == message.wf(),
            signed@ == (SignedBlockView { message: message@, signature: signature@ }),
    {
        SignedBlock { message, signature }
    }

    /// Whether the signature is the proposer's, over the canonical bytes of
    /// the block. A signature that is not 64 bytes long never is.
    pub fn verify_signature(&self) -> (valid: bool)
        ensures
            valid == self@.signature_holds(),
            self@.signature.len() != 64 ==> !valid,
    {
        let message = self.message.to_bytes();
        ed25519_verify(&self.message.proposer, message.as_slice(), self.signature.as_slice())
    }

    /// The lines with which the block is drawn: its words, in order.
    pub fn display(&self) -> (lines: Vec<String>)
        ensures
            views_of(lines@) == self@.message.words,
    {
        let words = self.message.body.words();
        let mut lines: Vec<String> = Vec::new();
        let mut i: usize = 0;
        assert(views_of(lines@) =~= words@.subrange(0, 0));
        while i < words.len()
            invariant
                i <= words@.len(),
                lines@.len() == i,
                views_of(lines@) == words@.subrange(0, i as int),
            decreases words@.len() - i,
        {
            let ghost before = lines@;
            let line = words.word(i).clone();
            lines.push(line);
            proof {
                let drawn = views_of(lines@);
                let expected = words@.subrange(0, i + 1);
                assert forall|j: int| 0 <= j < drawn.len() implies drawn[j] == expected[j] by {
                    if j < i {
                        assert(views_of(before)[j] == before[j]@);
                    }
                }
                assert(drawn =~= expected);
            }
            i += 1;
        }
        assert(words@.subrange(0, words@.len() as int) =~= words@);
        lines
    }

    /// The signature.
    pub fn signature(&self) -> (signature: &Vec<u8>)
        ensures
            signature@ == self@.signature,
    {
        &self.signature
    }

    /// Appends the canonical bytes of the signed block.
    pub fn write_to(&self, out: &mut Vec<u8>)
        ensures
            final(out)@ == old(out)@ + self@.bytes(),
            self.wf() ==> self@.wf(),
    {
        self.message.write_to(out);
        put_chunk(out, self.signature.as_slice());
        assert(out@ =~= old(out)@ + self@.bytes());
    }

    /// The canonical bytes of the signed block: what the store holds.
    pub fn to_bytes(&self) -> (bytes: Vec<u8>)
        ensures
            bytes@ == self@.bytes(),
            self.wf() ==> self@.wf(),
    {
        let mut out: Vec<u8> = Vec::new();
        self.write_to(&mut out);
        assert(out@ =~= self@.bytes());
        out
    }
}

} // verus!
