//! Reading blocks back from their canonical bytes.
//!
//! Writing is in [`crate::block`]. Here stands what reading means, as
//! functions on byte sequences, the executable readers, and the proof that
//! reading inverts writing: bytes are read as a block if and only if they are
//! the canonical bytes of that block.

use vstd::prelude::*;
use vstd::slice::slice_to_vec;
use vstd::utf8::*;
use crate::block::{words_bytes, words_payload, Block, BlockBody, BlockView, SignedBlock, SignedBlockView};
use crate::clock::Timestamp;
use crate::text::string_from_utf8;
use crate::wire::{
    chunk, i64_bytes, lemma_parse_chunk, lemma_parse_fixed, lemma_parse_i64, lemma_parse_u32, lemma_parse_u64,
    lemma_unparse_chunk, lemma_unparse_fixed, lemma_unparse_i64, lemma_unparse_u32, lemma_unparse_u64, parse_chunk,
    parse_fixed, parse_i64, parse_u32, parse_u64, take_chunk, take_fixed, take_i64, take_u32, take_u64, u32_bytes,
    u64_bytes,
};
use crate::words::{lemma_word_less_transitive, strictly_sorted, word_less, WordSet};

verus! {

/// Reading `n` words from the front of `s`: each a chunk of valid UTF-8, each
/// after the one before it, and the first after `before` if there is one.
pub open spec fn parse_words(s: Seq<u8>, n: nat, before: Option<Seq<char>>) -> Option<(Seq<Seq<char>>, Seq<u8>)>
    decreases n,
{
    if n == 0 {
        Some((Seq::empty(), s))
    } else {
        match parse_chunk(s) {
            Some((bytes, rest)) => {
                if valid_utf8(bytes) && (before matches Some(w) ==> word_less(w, decode_utf8(bytes))) {
                    match parse_words(rest, (n - 1) as nat, Some(decode_utf8(bytes))) {
                        Some((words, tail)) => Some((seq![decode_utf8(bytes)] + words, tail)),
                        None => None,
                    }
                } else {
                    None
                }
            },
            None => None,
        }
    }
}

/// Reading a body from the front of `s`: the number of words, then the words.
pub open spec fn parse_body(s: Seq<u8>) -> Option<(Seq<Seq<char>>, Seq<u8>)> {
    match parse_u64(s) {
        Some((n, rest)) => parse_words(rest, n as nat, None),
        None => None,
    }
}

/// Reading the fields that follow the body of a block.
pub open spec fn parse_header(s: Seq<u8>, words: Seq<Seq<char>>) -> Option<(BlockView, Seq<u8>)> {
    match parse_fixed(s, 32) {
        Some((proposer, s1)) => match parse_u64(s1) {
            Some((hash, s2)) => match parse_u64(s2) {
                Some((parent_hash, s3)) => match parse_i64(s3) {
                    Some((secs, s4)) => match parse_u32(s4) {
                        Some((nanos, s5)) => Some(
                            (BlockView { words, proposer, hash, parent_hash, timestamp: Timestamp { secs, nanos } }, s5),
                        ),
                        None => None,
                    },
                    None => None,
                },
                None => None,
            },
            None => None,
        },
        None => None,
    }
}

/// Reading a block from the front of `s`.
pub open spec fn parse_block(s: Seq<u8>) -> Option<(BlockView, Seq<u8>)> {
    match parse_body(s) {
        Some((words, rest)) => parse_header(rest, words),
        None => None,
    }
}

/// Reading a signed block from the front of `s`.
pub open spec fn parse_signed_block(s: Seq<u8>) -> Option<(SignedBlockView, Seq<u8>)> {
    match parse_block(s) {
        Some((message, rest)) => match parse_chunk(rest) {
            Some((signature, tail)) => Some((SignedBlockView { message, signature }, tail)),
            None => None,
        },
        None => None,
    }
}

/// Words that were written are read back.
pub proof fn lemma_parse_words(words: Seq<Seq<char>>, before: Option<Seq<char>>, tail: Seq<u8>)
    requires
        strictly_sorted(words),
        forall|i: int| 0 <= i < words.len() ==> encode_utf8(#[trigger] words[i]).len() <= u64::MAX,
        before matches Some(w) ==> words.len() > 0 ==> word_less(w, words[0]),
    ensures
        parse_words(words_payload(words) + tail, words.len(), before) == Some((words, tail)),
    decreases words.len(),
{
    if words.len() == 0 {
        assert(words_payload(words) + tail =~= tail);
        assert(words =~= Seq::<Seq<char>>::empty());
    } else {
        let w = words.first();
        let rest = words.drop_first();
        let bytes = encode_utf8(w);
        assert(words_payload(words) + tail =~= chunk(bytes) + (words_payload(rest) + tail));
        lemma_parse_chunk(bytes, words_payload(rest) + tail);
        encode_utf8_valid_utf8(w);
        encode_utf8_decode_utf8(w);
        assert forall|i: int| 0 <= i < rest.len() implies encode_utf8(#[trigger] rest[i]).len() <= u64::MAX by {
            assert(rest[i] == words[i + 1]);
        }
        assert(strictly_sorted(rest)) by {
            assert forall|i: int, j: int| 0 <= i < j < rest.len() implies word_less(rest[i], rest[j]) by {
                assert(rest[i] == words[i + 1] && rest[j] == words[j + 1]);
            }
        }
        if rest.len() > 0 {
            assert(rest[0] == words[1]);
        }
        lemma_parse_words(rest, Some(w), tail);
        assert(seq![w] + rest =~= words);
    }
}

/// What was read as words had been written as those words, and they are in
/// order.
pub proof fn lemma_unparse_words(s: Seq<u8>, n: nat, before: Option<Seq<char>>)
    requires
        parse_words(s, n, before) is Some,
    ensures
        ({
            let (words, tail) = parse_words(s, n, before).unwrap();
            &&& words.len() == n
            &&& s == words_payload(words) + tail
            &&& strictly_sorted(words)
            &&& forall|i: int| 0 <= i < words.len() ==> encode_utf8(#[trigger] words[i]).len() <= u64::MAX
            &&& before matches Some(w) ==> n > 0 ==> word_less(w, words[0])
        }),
    decreases n,
{
    let (words, tail) = parse_words(s, n, before).unwrap();
    if n == 0 {
        assert(words_payload(words) + tail =~= s);
    } else {
        let (bytes, rest) = parse_chunk(s).unwrap();
        let w = decode_utf8(bytes);
        lemma_unparse_chunk(s);
        decode_utf8_encode_utf8(bytes);
        lemma_unparse_words(rest, (n - 1) as nat, Some(w));
        let (more, end) = parse_words(rest, (n - 1) as nat, Some(w)).unwrap();
        assert(words == seq![w] + more);
        assert(words.first() == w);
        assert(words.drop_first() =~= more);
        assert(s =~= words_payload(words) + tail);
        assert forall|i: int| 0 <= i < words.len() implies encode_utf8(#[trigger] words[i]).len() <= u64::MAX by {
            if i > 0 {
                assert(words[i] == more[i - 1]);
            }
        }
        assert forall|i: int, j: int| 0 <= i < j < words.len() implies word_less(words[i], words[j]) by {
            assert(words[j] == more[j - 1]);
            if i == 0 {
                if j > 1 {
                    lemma_word_less_transitive(w, more[0], more[j - 1]);
                }
            } else {
                assert(words[i] == more[i - 1]);
            }
        }
    }
}

/// A block that was written is read back.
pub proof fn lemma_parse_block(block: BlockView, tail: Seq<u8>)
    requires
        block.wf(),
    ensures
        parse_block(block.bytes() + tail) == Some((block, tail)),
{
    let s5 = tail;
    let s4 = u32_bytes(block.timestamp.nanos) + s5;
    let s3 = i64_bytes(block.timestamp.secs) + s4;
    let s2 = u64_bytes(block.parent_hash) + s3;
    let s1 = u64_bytes(block.hash) + s2;
    let s0 = block.proposer + s1;
    let body = words_payload(block.words) + s0;
    let n = block.words.len() as u64;
    assert(block.bytes() + tail =~= u64_bytes(n) + body);
    lemma_parse_u64(n, body);
    lemma_parse_words(block.words, None, s0);
    lemma_parse_fixed(block.proposer, s1);
    lemma_parse_u64(block.hash, s2);
    lemma_parse_u64(block.parent_hash, s3);
    lemma_parse_i64(block.timestamp.secs, s4);
    lemma_parse_u32(block.timestamp.nanos, s5);
}

/// What was read as a block had been written as that block, which is well
/// formed.
pub proof fn lemma_unparse_block(s: Seq<u8>)
    requires
        parse_block(s) is Some,
    ensures
        parse_block(s).unwrap().0.wf(),
        s == parse_block(s).unwrap().0.bytes() + parse_block(s).unwrap().1,
{
    let (block, tail) = parse_block(s).unwrap();
    lemma_unparse_u64(s);
    let (n, body) = parse_u64(s).unwrap();
    lemma_unparse_words(body, n as nat, None);
    let (words, s0) = parse_words(body, n as nat, None).unwrap();
    lemma_unparse_fixed(s0, 32);
    let (proposer, s1) = parse_fixed(s0, 32).unwrap();
    lemma_unparse_u64(s1);
    let (hash, s2) = parse_u64(s1).unwrap();
    lemma_unparse_u64(s2);
    let (parent_hash, s3) = parse_u64(s2).unwrap();
    lemma_unparse_i64(s3);
    let (secs, s4) = parse_i64(s3).unwrap();
    lemma_unparse_u32(s4);
    assert(words_bytes(words) == u64_bytes(n) + words_payload(words));
    assert(s =~= block.bytes() + tail);
}

/// A signed block that was written is read back.
pub proof fn lemma_parse_signed_block(signed: SignedBlockView, tail: Seq<u8>)
    requires
        signed.wf(),
    ensures
        parse_signed_block(signed.bytes() + tail) == Some((signed, tail)),
{
    assert(signed.bytes() + tail =~= signed.message.bytes() + (chunk(signed.signature) + tail));
    lemma_parse_block(signed.message, chunk(signed.signature) + tail);
    lemma_parse_chunk(signed.signature, tail);
}

/// What was read as a signed block had been written as that signed block,
/// which is well formed.
pub proof fn lemma_unparse_signed_block(s: Seq<u8>)
    requires
        parse_signed_block(s) is Some,
    ensures
        parse_signed_block(s).unwrap().0.wf(),
        s == parse_signed_block(s).unwrap().0.bytes() + parse_signed_block(s).unwrap().1,
{
    let (signed, tail) = parse_signed_block(s).unwrap();
    lemma_unparse_block(s);
    let (message, rest) = parse_block(s).unwrap();
    lemma_unparse_chunk(rest);
    assert(s =~= signed.bytes() + tail);
}

/// The words read so far, put before what reading the rest gives.
pub open spec fn words_before(
    done: Seq<Seq<char>>,
    rest: Option<(Seq<Seq<char>>, Seq<u8>)>,
) -> Option<(Seq<Seq<char>>, Seq<u8>)> {
    match rest {
        Some((words, tail)) => Some((done + words, tail)),
        None => None,
    }
}

/// The last word of a sequence, if it has one.
pub open spec fn last_word(words: Seq<Seq<char>>) -> Option<Seq<char>> {
    if words.len() == 0 {
        None
    } else {
        Some(words.last())
    }
}

/// Reads a body at `pos`, and gives the position behind it.
pub fn read_body(data: &[u8], pos: usize) -> (r: Option<(BlockBody, usize)>)
    requires
        pos <= data@.len(),
    ensures
        match r {
            Some((body, next)) => {
                &&& pos <= next <= data@.len()
                &&& body.wf()
                &&& parse_body(data@.skip(pos as int)) == Some((body@, data@.skip(next as int)))
            },
            None => parse_body(data@.skip(pos as int)) is None,
        },
{
    let (n, start) = match take_u64(data, pos) {
        Some(r) => r,
        None => {
            return None;
        },
    };
    let ghost goal = parse_words(data@.skip(start as int), n as nat, None);
    let mut words = WordSet::new();
    let mut at: usize = start;
    let mut i: u64 = 0;
    assert(words_before(words@, parse_words(data@.skip(at as int), (n - i) as nat, last_word(words@))) == goal) by {
        let rest = parse_words(data@.skip(at as int), n as nat, None);
        if rest is Some {
            assert(words@ + rest.unwrap().0 =~= rest.unwrap().0);
        }
    }
    while i < n
        invariant
            i <= n,
            pos <= at <= data@.len(),
            words.wf(),
            parse_body(data@.skip(pos as int)) == goal,
            words_before(words@, parse_words(data@.skip(at as int), (n - i) as nat, last_word(words@))) == goal,
        decreases n - i,
    {
        let ghost s = data@.skip(at as int);
        let ghost done = words@;
        let (bytes, next) = match take_chunk(data, at) {
            Some(r) => r,
            None => {
                return None;
            },
        };
        let word = match string_from_utf8(slice_to_vec(bytes)) {
            Some(word) => word,
            None => {
                return None;
            },
        };
        let ghost w = word@;
        if !words.push_last(word) {
            return None;
        }
        proof {
            let rest = parse_words(data@.skip(next as int), (n - i - 1) as nat, Some(w));
            assert(last_word(words@) == Some(w));
            if rest is Some {
                assert(done + (seq![w] + rest.unwrap().0) =~= words@ + rest.unwrap().0);
            }
        }
        at = next;
        i += 1;
    }
    proof {
        assert(words@ + Seq::<Seq<char>>::empty() =~= words@);
    }
    Some((BlockBody::from_wordset(words), at))
}

/// Copies 32 bytes into an array.
fn key_of(bytes: &[u8]) -> (key: [u8; 32])
    requires
        bytes@.len() == 32,
    ensures
        key@ == bytes@,
{
    let mut key: [u8; 32] = [0; 32];
    let mut i: usize = 0;
    while i < 32
        invariant
            i <= 32,
            bytes@.len() == 32,
            forall|j: int| 0 <= j < i ==> key@[j] == bytes@[j],
        decreases 32 - i,
    {
        key[i] = bytes[i];
        i += 1;
    }
    assert(key@ =~= bytes@);
    key
}

/// Reads a block at `pos`, and gives the position behind it.
pub fn read_block(data: &[u8], pos: usize) -> (r: Option<(Block, usize)>)
    requires
        pos <= data@.len(),
    ensures
        match r {
            Some((block, next)) => {
                &&& pos <= next <= data@.len()
                &&& block.wf()
                &&& parse_block(data@.skip(pos as int)) == Some((block@, data@.skip(next as int)))
            },
            None => parse_block(data@.skip(pos as int)) is None,
        },
{
    let (body, at) = match read_body(data, pos) {
        Some(r) => r,
        None => {
            return None;
        },
    };
    let (proposer, at) = match take_fixed(data, at, 32) {
        Some(r) => r,
        None => {
            return None;
        },
    };
    let (hash, at) = match take_u64(data, at) {
        Some(r) => r,
        None => {
            return None;
        },
    };
    let (parent_hash, at) = match take_u64(data, at) {
        Some(r) => r,
        None => {
            return None;
        },
    };
    let (secs, at) = match take_i64(data, at) {
        Some(r) => r,
        None => {
            return None;
        },
    };
    let (nanos, at) = match take_u32(data, at) {
        Some(r) => r,
        None => {
            return None;
        },
    };
    Some((Block::from_parts(body, key_of(proposer), hash, parent_hash, Timestamp { secs, nanos }), at))
}

/// Reads a signed block at `pos`, and gives the position behind it.
pub fn read_signed_block(data: &[u8], pos: usize) -> (r: Option<(SignedBlock, usize)>)
    requires
        pos <= data@.len(),
    ensures
        match r {
            Some((signed, next)) => {
                &&& pos <= next <= data@.len()
                &&& signed.wf()
                &&& parse_signed_block(data@.skip(pos as int)) == Some((signed@, data@.skip(next as int)))
            },
            None => parse_signed_block(data@.skip(pos as int)) is None,
        },
{
    let (message, at) = match read_block(data, pos) {
        Some(r) => r,
        None => {
            return None;
        },
    };
    let (signature, at) = match take_chunk(data, at) {
        Some(r) => r,
        None => {
            return None;
        },
    };
    Some((SignedBlock::new(message, slice_to_vec(signature)), at))
}

} // verus!
