//! Text: the words of a line of input, and what std does for the library
//! with strings.

use vstd::prelude::*;
use vstd::string::StrSliceExecFns;
use vstd::utf8::*;
use crate::words::views_of;

verus! {

/// The lower-case form of a string: what `str::to_lowercase` returns for it,
/// by the Unicode property `Lowercase`.
pub uninterp spec fn lowercase(s: Seq<char>) -> Seq<char>;

/// Calls `String::from_utf8`, which accepts the bytes if and only if they are
/// valid UTF-8, and then gives the string that they encode.
#[verifier::external_body]
pub(crate) fn string_from_utf8(bytes: Vec<u8>) -> (r: Option<String>)
    ensures
        r is Some <==> valid_utf8(bytes@),
        r matches Some(s) ==> s@ == decode_utf8(bytes@),
{
    match String::from_utf8(bytes) {
        Ok(s) => Some(s),
        Err(_) => None,
    }
}

/// Calls `str::to_lowercase`.
#[verifier::external_body]
pub(crate) fn to_lowercase(s: &str) -> (lower: String)
    ensures
        lower@ == lowercase(s@),
{
    s.to_lowercase()
}

/// The characters that part the words of a line: space, tab, line feed, form
/// feed and carriage return.
pub open spec fn is_space(c: char) -> bool {
    c == ' ' || c == '\t' || c == '\n' || c == '\x0C' || c == '\r'
}

/// The words of a line: its longest runs of characters that are no spaces,
/// from left to right.
pub open spec fn tokens(line: Seq<char>) -> Seq<Seq<char>>
    decreases line.len(),
{
    if line.len() == 0 {
        Seq::empty()
    } else {
        let before = tokens(line.drop_last());
        let c = line.last();
        if is_space(c) {
            before
        } else if line.len() >= 2 && !is_space(line[line.len() - 2]) {
            before.drop_last().push(before.last().push(c))
        } else {
            before.push(seq![c])
        }
    }
}

/// The words of a line, each in lower case.
pub open spec fn lowercase_tokens(line: Seq<char>) -> Seq<Seq<char>> {
    tokens(line).map_values(|t: Seq<char>| lowercase(t))
}

/// One more word, in lower case, behind words in lower case.
proof fn lemma_push_lowercase(words: Seq<String>, word: String, raw: Seq<Seq<char>>, token: Seq<char>)
    requires
        views_of(words) == raw.map_values(|t: Seq<char>| lowercase(t)),
        word@ == lowercase(token),
    ensures
        views_of(words.push(word)) == raw.push(token).map_values(|t: Seq<char>| lowercase(t)),
{
    let a = views_of(words.push(word));
    let b = raw.push(token).map_values(|t: Seq<char>| lowercase(t));
    assert(views_of(words).len() == raw.len());
    assert(a.len() == b.len());
    assert forall|j: int| 0 <= j < a.len() implies a[j] == b[j] by {
        if j < words.len() {
            assert(a[j] == views_of(words)[j]);
            assert(b[j] == raw.map_values(|t: Seq<char>| lowercase(t))[j]);
        }
    }
    assert(a =~= b);
}

/// Whether `c` parts words.
pub fn is_space_char(c: char) -> (space: bool)
    ensures
        space == is_space(c),
{
    c == ' ' || c == '\t' || c == '\n' || c == '\x0C' || c == '\r'
}

/// Splits a line into its words and puts each into lower case.
pub fn tokenize(line: &str) -> (words: Vec<String>)
    ensures
        views_of(words@) == lowercase_tokens(line@),
{
    let n = line.unicode_len();
    let mut words: Vec<String> = Vec::new();
    let ghost mut raw: Seq<Seq<char>> = Seq::empty();
    let mut start: usize = 0;
    let mut inside = false;
    let mut i: usize = 0;
    assert(line@.take(0) =~= Seq::<char>::empty());
    assert(views_of(words@) =~= raw.map_values(|t: Seq<char>| lowercase(t)));
    while i < n
        invariant
            i <= n,
            n == line@.len(),
            inside ==> start < i && !is_space(line@[i - 1]),
            !inside ==> i == 0 || is_space(line@[i - 1]),
            tokens(line@.take(i as int)) == if inside {
                raw.push(line@.subrange(start as int, i as int))
            } else {
                raw
            },
            views_of(words@) == raw.map_values(|t: Seq<char>| lowercase(t)),
        decreases n - i,
    {
        let c = line.get_char(i);
        proof {
            let next = line@.take(i + 1);
            assert(next.drop_last() =~= line@.take(i as int));
            assert(next.last() == line@[i as int]);
            if i > 0 {
                assert(next[next.len() - 2] == line@[i - 1]);
            }
        }
        if is_space_char(c) {
            if inside {
                let word = to_lowercase(line.substring_char(start, i));
                proof {
                    let token = line@.subrange(start as int, i as int);
                    lemma_push_lowercase(words@, word, raw, token);
                    raw = raw.push(token);
                }
                words.push(word);
                inside = false;
            }
        } else {
            if inside {
                proof {
                    let token = line@.subrange(start as int, i as int);
                    let before = raw.push(token);
                    assert(before.drop_last() =~= raw);
                    assert(before.last().push(c) =~= line@.subrange(start as int, i + 1));
                }
            } else {
                proof {
                    assert(seq![c] =~= line@.subrange(i as int, i + 1));
                }
                start = i;
                inside = true;
            }
        }
        i += 1;
    }
    assert(line@.take(n as int) =~= line@);
    if inside {
        let word = to_lowercase(line.substring_char(start, n));
        proof {
            let token = line@.subrange(start as int, n as int);
            lemma_push_lowercase(words@, word, raw, token);
        }
        words.push(word);
    }
    words
}

} // verus!
