//! Words and ordered sets of words.
//!
//! A word is a string; its model is the sequence of its characters. Words are
//! ordered by the bytes of their UTF-8 form, which is the order that `String`
//! itself has. A [`WordSet`] keeps distinct words in that order, so that a set
//! has exactly one representation and one canonical byte form.

use vstd::prelude::*;
use vstd::utf8::*;

verus! {

/// `a` and `b` agree on their first `k` bytes, and there `a` ends or has the
/// smaller byte.
pub open spec fn bytes_less_at(a: Seq<u8>, b: Seq<u8>, k: int) -> bool {
    &&& 0 <= k <= a.len()
    &&& k < b.len()
    &&& forall|i: int| 0 <= i < k ==> a[i] == b[i]
    &&& k < a.len() ==> a[k] < b[k]
}

/// Lexicographic order on byte sequences.
pub open spec fn bytes_less(a: Seq<u8>, b: Seq<u8>) -> bool {
    exists|k: int| bytes_less_at(a, b, k)
}

/// The order of words: that of their UTF-8 bytes.
pub open spec fn word_less(a: Seq<char>, b: Seq<char>) -> bool {
    bytes_less(encode_utf8(a), encode_utf8(b))
}

/// Every word stands before all the words that follow it.
pub open spec fn strictly_sorted(words: Seq<Seq<char>>) -> bool {
    forall|i: int, j: int| 0 <= i < j < words.len() ==> word_less(words[i], words[j])
}

/// The models of a vector of strings.
pub open spec fn views_of(words: Seq<String>) -> Seq<Seq<char>> {
    words.map_values(|w: String| w@)
}

/// No byte sequence stands before itself.
pub proof fn lemma_bytes_less_irreflexive(a: Seq<u8>)
    ensures
        !bytes_less(a, a),
{
}

/// The order on byte sequences is transitive.
pub proof fn lemma_bytes_less_transitive(a: Seq<u8>, b: Seq<u8>, c: Seq<u8>)
    requires
        bytes_less(a, b),
        bytes_less(b, c),
    ensures
        bytes_less(a, c),
{
    let k1 = choose|k: int| bytes_less_at(a, b, k);
    let k2 = choose|k: int| bytes_less_at(b, c, k);
    let k = if k1 <= k2 {
        k1
    } else {
        k2
    };
    assert(bytes_less_at(a, c, k));
}

/// Two words with the same UTF-8 bytes are the same word.
pub proof fn lemma_word_bytes_injective(a: Seq<char>, b: Seq<char>)
    requires
        encode_utf8(a) == encode_utf8(b),
    ensures
        a == b,
{
    encode_utf8_decode_utf8(a);
    encode_utf8_decode_utf8(b);
}

/// No word stands before itself.
pub proof fn lemma_word_less_irreflexive(a: Seq<char>)
    ensures
        !word_less(a, a),
{
    lemma_bytes_less_irreflexive(encode_utf8(a));
}

/// The order of words is transitive.
pub proof fn lemma_word_less_transitive(a: Seq<char>, b: Seq<char>, c: Seq<char>)
    requires
        word_less(a, b),
        word_less(b, c),
    ensures
        word_less(a, c),
{
    lemma_bytes_less_transitive(encode_utf8(a), encode_utf8(b), encode_utf8(c));
}

/// A strictly sorted sequence holds no word twice.
pub proof fn lemma_sorted_no_duplicates(words: Seq<Seq<char>>)
    requires
        strictly_sorted(words),
    ensures
        words.no_duplicates(),
        words.to_set().len() == words.len(),
{
    assert forall|i: int, j: int| 0 <= i < words.len() && 0 <= j < words.len() && i != j implies words[i]
        != words[j] by {
        lemma_word_less_irreflexive(words[i]);
    }
    words.unique_seq_to_set();
}

/// The first word of a sorted sequence stands before every other word of it,
/// so it is the first word of every sorted sequence of the same words.
proof fn lemma_sorted_first(a: Seq<Seq<char>>, b: Seq<Seq<char>>)
    requires
        strictly_sorted(a),
        strictly_sorted(b),
        a.to_set() == b.to_set(),
        a.len() > 0,
    ensures
        b.len() > 0,
        a[0] == b[0],
{
    assert(a.to_set().contains(a[0]));
    assert(b.to_set().contains(a[0]));
    let j = choose|j: int| 0 <= j < b.len() && b[j] == a[0];
    assert(b.to_set().contains(b[0]));
    assert(a.to_set().contains(b[0]));
    let i = choose|i: int| 0 <= i < a.len() && a[i] == b[0];
    if j > 0 && i > 0 {
        // b[0] stands before b[j], which is a[0], which stands before a[i], which is b[0]
        lemma_word_less_transitive(b[0], a[0], b[0]);
        lemma_word_less_irreflexive(b[0]);
    }
}

/// A set of words has one sorted sequence only: two strictly sorted
/// sequences of the same words are the same sequence.
pub proof fn lemma_sorted_unique(a: Seq<Seq<char>>, b: Seq<Seq<char>>)
    requires
        strictly_sorted(a),
        strictly_sorted(b),
        a.to_set() == b.to_set(),
    ensures
        a == b,
    decreases a.len(),
{
    lemma_sorted_no_duplicates(a);
    lemma_sorted_no_duplicates(b);
    if a.len() == 0 {
        assert(a =~= b);
    } else {
        lemma_sorted_first(a, b);
        let x = a.drop_first();
        let y = b.drop_first();
        assert(strictly_sorted(x)) by {
            assert forall|i: int, j: int| 0 <= i < j < x.len() implies word_less(x[i], x[j]) by {
                assert(x[i] == a[i + 1] && x[j] == a[j + 1]);
            }
        }
        assert(strictly_sorted(y)) by {
            assert forall|i: int, j: int| 0 <= i < j < y.len() implies word_less(y[i], y[j]) by {
                assert(y[i] == b[i + 1] && y[j] == b[j + 1]);
            }
        }
        assert(x.to_set() =~= y.to_set()) by {
            assert forall|w: Seq<char>| x.to_set().contains(w) implies y.to_set().contains(w) by {
                let i = choose|i: int| 0 <= i < x.len() && x[i] == w;
                assert(a[i + 1] == w);
                assert(a.to_set().contains(w));
                assert(b.to_set().contains(w));
                let j = choose|j: int| 0 <= j < b.len() && b[j] == w;
                assert(j > 0);
                assert(y[j - 1] == w);
            }
            assert forall|w: Seq<char>| y.to_set().contains(w) implies x.to_set().contains(w) by {
                let j = choose|j: int| 0 <= j < y.len() && y[j] == w;
                assert(b[j + 1] == w);
                assert(b.to_set().contains(w));
                assert(a.to_set().contains(w));
                let i = choose|i: int| 0 <= i < a.len() && a[i] == w;
                assert(i > 0);
                assert(x[i - 1] == w);
            }
        }
        lemma_sorted_unique(x, y);
        assert(a =~= seq![a[0]] + x);
        assert(b =~= seq![b[0]] + y);
    }
}

/// How one word stands to another.
#[derive(Clone, Copy, Debug, PartialEq, Eq)]
pub enum WordOrder {
    Before,
    Same,
    After,
}

/// Compares two words by their UTF-8 bytes.
pub fn word_order(a: &str, b: &str) -> (o: WordOrder)
    ensures
        o is Before <==> word_less(a@, b@),
        o is Same <==> a@ == b@,
        o is After <==> word_less(b@, a@),
{
    let x = a.as_bytes();
    let y = b.as_bytes();
    let ghost xs = encode_utf8(a@);
    let ghost ys = encode_utf8(b@);
    let mut i: usize = 0;
    while i < x.len() && i < y.len()
        invariant
            xs == encode_utf8(a@),
            ys == encode_utf8(b@),
            x@ == xs,
            y@ == ys,
            i <= xs.len(),
            i <= ys.len(),
            forall|j: int| 0 <= j < i ==> xs[j] == ys[j],
        decreases xs.len() - i,
    {
        if x[i] < y[i] {
            proof {
                assert(bytes_less_at(xs, ys, i as int));
                lemma_order_exclusive(a@, b@);
            }
            return WordOrder::Before;
        }
        if y[i] < x[i] {
            proof {
                assert(bytes_less_at(ys, xs, i as int));
                lemma_order_exclusive(b@, a@);
            }
            return WordOrder::After;
        }
        i += 1;
    }
    if i < y.len() {
        proof {
            assert(bytes_less_at(xs, ys, i as int));
            lemma_order_exclusive(a@, b@);
        }
        WordOrder::Before
    } else if i < x.len() {
        proof {
            assert(bytes_less_at(ys, xs, i as int));
            lemma_order_exclusive(b@, a@);
        }
        WordOrder::After
    } else {
        proof {
            assert(xs =~= ys);
            lemma_word_bytes_injective(a@, b@);
            lemma_word_less_irreflexive(a@);
        }
        WordOrder::Same
    }
}

/// A word that stands before another is neither equal to it nor after it.
pub proof fn lemma_order_exclusive(a: Seq<char>, b: Seq<char>)
    requires
        word_less(a, b),
    ensures
        a != b,
        !word_less(b, a),
{
    lemma_word_less_irreflexive(a);
    if word_less(b, a) {
        lemma_word_less_transitive(a, b, a);
    }
}

/// A set of distinct words, kept in order.
#[derive(Debug)]
pub struct WordSet {
    words: Vec<String>,
}

impl View for WordSet {
    type V = Seq<Seq<char>>;

    closed spec fn view(&self) -> Seq<Seq<char>> {
        views_of(self.words@)
    }
}

impl Clone for WordSet {
    fn clone(&self) -> (copy: WordSet)
        ensures
            copy@ == self@,
    {
        let mut words: Vec<String> = Vec::new();
        let mut i: usize = 0;
        while i < self.words.len()
            invariant
                i <= self.words@.len(),
                words@.len() == i,
                views_of(words@) == views_of(self.words@).subrange(0, i as int),
            decreases self.words@.len() - i,
        {
            let ghost before = words@;
            let word = self.words[i].clone();
            words.push(word);
            proof {
                let copied = views_of(words@);
                let expected = views_of(self.words@).subrange(0, i + 1);
                assert(copied.len() == expected.len());
                assert forall|j: int| 0 <= j < copied.len() implies copied[j] == expected[j] by {
                    if j < i {
                        assert(views_of(before)[j] == before[j]@);
                    }
                }
                assert(copied =~= expected);
            }
            i += 1;
        }
        assert(views_of(words@) =~= views_of(self.words@));
        WordSet { words }
    }
}

impl WordSet {
    /// The words are strictly sorted, so none occurs twice.
    pub open spec fn wf(&self) -> bool {
        strictly_sorted(self@)
    }

    /// The empty set.
    pub fn new() -> (set: WordSet)
        ensures
            set.wf(),
            set@ == Seq::<Seq<char>>::empty(),
    {
        let set = WordSet { words: Vec::new() };
        assert(set@ =~= Seq::<Seq<char>>::empty());
        set
    }

    /// The number of words.
    pub fn len(&self) -> (n: usize)
        ensures
            n == self@.len(),
            self.wf() ==> n == self@.to_set().len(),
    {
        proof {
            if self.wf() {
                lemma_sorted_no_duplicates(self@);
            }
        }
        self.words.len()
    }

    /// The word at place `i` of the order.
    pub fn word(&self, i: usize) -> (w: &String)
        requires
            i < self@.len(),
        ensures
            w@ == self@[i as int],
    {
        &self.words[i]
    }

    /// Looks `word` up by binary search. Returns whether the set holds it, and
    /// its place: where it stands, or where it would have to stand.
    pub fn find(&self, word: &str) -> (r: (bool, usize))
        requires
            self.wf(),
        ensures
            r.0 == self@.contains(word@),
            r.1 <= self@.len(),
            r.0 ==> r.1 < self@.len() && self@[r.1 as int] == word@,
            forall|i: int| 0 <= i < r.1 ==> word_less(self@[i], word@),
            forall|i: int| r.1 <= i < self@.len() && !(r.0 && i == r.1) ==> word_less(word@, self@[i]),
    {
        let mut lo: usize = 0;
        let mut hi: usize = self.words.len();
        while lo < hi
            invariant
                lo <= hi <= self@.len(),
                self@ == views_of(self.words@),
                strictly_sorted(self@),
                forall|i: int| 0 <= i < lo ==> word_less(self@[i], word@),
                forall|i: int| hi <= i < self@.len() ==> word_less(word@, self@[i]),
            decreases hi - lo,
        {
            let mid = lo + (hi - lo) / 2;
            assert(self@[mid as int] == self.words@[mid as int]@);
            match word_order(self.words[mid].as_str(), word) {
                WordOrder::Same => {
                    proof {
                        assert forall|i: int| 0 <= i < mid implies word_less(self@[i], word@) by {}
                        assert forall|i: int| mid < i < self@.len() implies word_less(
                            word@,
                            self@[i],
                        ) by {}
                    }
                    return (true, mid);
                },
                WordOrder::Before => {
                    proof {
                        assert forall|i: int| 0 <= i < mid + 1 implies word_less(self@[i], word@) by {
                            if i < mid {
                                lemma_word_less_transitive(self@[i], self@[mid as int], word@);
                            }
                        }
                    }
                    lo = mid + 1;
                },
                WordOrder::After => {
                    proof {
                        assert forall|i: int| mid <= i < self@.len() implies word_less(
                            word@,
                            self@[i],
                        ) by {
                            if mid < i {
                                lemma_word_less_transitive(word@, self@[mid as int], self@[i]);
                            }
                        }
                    }
                    hi = mid;
                },
            }
        }
        proof {
            assert forall|i: int| 0 <= i < self@.len() implies self@[i] != word@ by {
                lemma_word_less_irreflexive(word@);
            }
        }
        (false, lo)
    }

    /// Whether the set holds `word`.
    pub fn contains(&self, word: &str) -> (found: bool)
        requires
            self.wf(),
        ensures
            found == self@.contains(word@),
            found == self@.to_set().contains(word@),
    {
        let r = self.find(word);
        r.0
    }

    /// Adds `word` unless the set holds it already, and says whether it was
    /// added.
    pub fn insert(&mut self, word: String) -> (added: bool)
        requires
            old(self).wf(),
        ensures
            final(self).wf(),
            added == !old(self)@.contains(word@),
            final(self)@.to_set() == old(self)@.to_set().insert(word@),
            !added ==> final(self)@ == old(self)@,
            added ==> final(self)@.len() == old(self)@.len() + 1,
    {
        let r = self.find(word.as_str());
        if r.0 {
            assert(self@.to_set().insert(word@) =~= self@.to_set());
            return false;
        }
        let ghost before = self@;
        let ghost w = word@;
        let ghost at = r.1 as int;
        proof {
            let after = before.insert(at, w);
            assert(views_of(self.words@.insert(at, word)) =~= after);
            assert forall|i: int, j: int| 0 <= i < j < after.len() implies word_less(
                after[i],
                after[j],
            ) by {
                if j < at {
                } else if j == at {
                } else if i < at {
                    lemma_word_less_transitive(before[i], w, before[j - 1]);
                } else if i == at {
                } else {
                }
            }
            assert(after.to_set() =~= before.to_set().insert(w)) by {
                assert forall|x: Seq<char>| after.to_set().contains(x) implies before.to_set().insert(
                    w,
                ).contains(x) by {
                    let i = choose|i: int| 0 <= i < after.len() && after[i] == x;
                    if i < at {
                        assert(before[i] == x);
                    } else if i > at {
                        assert(before[i - 1] == x);
                    }
                }
                assert forall|x: Seq<char>| before.to_set().insert(w).contains(x) implies after.to_set().contains(
                    x,
                ) by {
                    if x == w {
                        assert(after[at] == x);
                    } else {
                        let i = choose|i: int| 0 <= i < before.len() && before[i] == x;
                        if i < at {
                            assert(after[i] == x);
                        } else {
                            assert(after[i + 1] == x);
                        }
                    }
                }
            }
        }
        self.words.insert(r.1, word);
        true
    }

    /// Appends `word` if it stands after every word of the set, and says
    /// whether it did.
    pub fn push_last(&mut self, word: String) -> (added: bool)
        requires
            old(self).wf(),
        ensures
            final(self).wf(),
            added == (old(self)@.len() == 0 || word_less(old(self)@.last(), word@)),
            added ==> final(self)@ == old(self)@.push(word@),
            !added ==> final(self)@ == old(self)@,
    {
        let n = self.words.len();
        if n > 0 {
            match word_order(self.words[n - 1].as_str(), word.as_str()) {
                WordOrder::Before => {},
                _ => {
                    return false;
                },
            }
        }
        let ghost before = self@;
        let ghost w = word@;
        proof {
            let after = before.push(w);
            assert(views_of(self.words@.push(word)) =~= after);
            assert forall|i: int, j: int| 0 <= i < j < after.len() implies word_less(
                after[i],
                after[j],
            ) by {
                if j == n && i < n - 1 {
                    lemma_word_less_transitive(before[i], before[n - 1], w);
                }
            }
        }
        self.words.push(word);
        true
    }

    /// The set of the words of `list`: each word once, in order.
    pub fn from_words(list: Vec<String>) -> (set: WordSet)
        ensures
            set.wf(),
            set@.to_set() == views_of(list@).to_set(),
    {
        let mut set = WordSet::new();
        let ghost all = views_of(list@);
        let mut list = list;
        let ghost mut taken: int = all.len() as int;
        assert(all.subrange(all.len() as int, all.len() as int).to_set() =~= set@.to_set());
        while list.len() > 0
            invariant
                0 <= taken <= all.len(),
                taken == list@.len(),
                set.wf(),
                views_of(list@) == all.subrange(0, taken),
                set@.to_set() == all.subrange(taken, all.len() as int).to_set(),
            decreases list@.len(),
        {
            let ghost rest = views_of(list@);
            let word = list.pop().unwrap();
            proof {
                let done = all.subrange(taken, all.len() as int);
                let more = all.subrange(taken - 1, all.len() as int);
                assert(rest[taken - 1] == word@);
                assert(word@ == all[taken - 1]);
                assert(views_of(list@) =~= all.subrange(0, taken - 1));
                assert(more.to_set() =~= done.to_set().insert(word@)) by {
                    assert forall|x: Seq<char>| more.to_set().contains(x) implies done.to_set().insert(
                        word@,
                    ).contains(x) by {
                        let i = choose|i: int| 0 <= i < more.len() && more[i] == x;
                        if i > 0 {
                            assert(done[i - 1] == x);
                        }
                    }
                    assert forall|x: Seq<char>| done.to_set().insert(word@).contains(x) implies more.to_set().contains(
                        x,
                    ) by {
                        if x == word@ {
                            assert(more[0] == x);
                        } else {
                            let i = choose|i: int| 0 <= i < done.len() && done[i] == x;
                            assert(more[i + 1] == x);
                        }
                    }
                }
                taken = taken - 1;
            }
            set.insert(word);
        }
        proof {
            assert(all.subrange(0, all.len() as int) =~= all);
        }
        set
    }

    /// Whether every word of this set is a word of `other`.
    pub fn is_subset(&self, other: &WordSet) -> (all: bool)
        requires
            other.wf(),
        ensures
            all == self@.to_set().subset_of(other@.to_set()),
    {
        let mut i: usize = 0;
        while i < self.words.len()
            invariant
                i <= self@.len(),
                other.wf(),
                self@ == views_of(self.words@),
                forall|j: int| 0 <= j < i ==> other@.to_set().contains(self@[j]),
            decreases self@.len() - i,
        {
            if !other.contains(self.words[i].as_str()) {
                assert(self@.to_set().contains(self@[i as int]));
                return false;
            }
            i += 1;
        }
        true
    }
}

} // verus!
