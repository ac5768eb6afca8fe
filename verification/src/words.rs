//! The words of a text.
//!
//! A word is a run of characters that are not whitespace, as long as it
//! can be: whitespace or an end of the text stands on both sides of it.

use vstd::prelude::*;

use crate::bytes::lemma_chars_le_bytes;

verus! {

/// Whether `c` separates words: space, tab, line feed, carriage return,
/// form feed or vertical tab.
pub open spec fn is_whitespace(c: char) -> bool {
    c == ' ' || c == '\t' || c == '\n' || c == '\r' || c == '\u{c}' || c == '\u{b}'
}

/// Whether `s` holds nothing but whitespace.
pub open spec fn all_whitespace(s: Seq<char>) -> bool {
    forall|i: int| 0 <= i < s.len() ==> is_whitespace(#[trigger] s[i])
}

/// Length of the word at the start of `s`: the number of characters before
/// the first whitespace, and all of them if there is none.
pub open spec fn first_word_len(s: Seq<char>) -> nat
    decreases s.len(),
{
    if s.len() == 0 || is_whitespace(s[0]) {
        0
    } else {
        1 + first_word_len(s.drop_first())
    }
}

/// The words of `s`, in order: whitespace at the start is passed over;
/// then the characters before the next whitespace are a word, and the
/// words of the text after that whitespace follow.
pub open spec fn words(s: Seq<char>) -> Seq<Seq<char>>
    decreases s.len(),
{
    if s.len() == 0 {
        Seq::empty()
    } else if is_whitespace(s[0]) {
        words(s.drop_first())
    } else {
        let n = first_word_len(s) as int;
        if n >= s.len() {
            seq![s]
        } else {
            seq![s.take(n)] + words(s.skip(n + 1))
        }
    }
}

/// Number of words of `s`.
pub open spec fn word_count(s: Seq<char>) -> nat {
    words(s).len()
}

/// Whether `w` can be a word: it is not empty and holds no whitespace.
pub open spec fn is_word(w: Seq<char>) -> bool {
    w.len() > 0 && forall|j: int| 0 <= j < w.len() ==> !is_whitespace(#[trigger] w[j])
}

/// Whether a word of `a + b` lies across the place where `a` ends and `b`
/// starts.
pub open spec fn joined(a: Seq<char>, b: Seq<char>) -> bool {
    a.len() > 0 && b.len() > 0 && !is_whitespace(a.last()) && !is_whitespace(b[0])
}

/// The first word ends at the first whitespace: there is none before its
/// end, and one at its end unless the text ends there.
pub proof fn lemma_first_word(s: Seq<char>)
    ensures
        first_word_len(s) <= s.len(),
        forall|i: int| 0 <= i < first_word_len(s) ==> !is_whitespace(s[i]),
        first_word_len(s) < s.len() ==> is_whitespace(s[first_word_len(s) as int]),
    decreases s.len(),
{
    if s.len() > 0 && !is_whitespace(s[0]) {
        let rest = s.drop_first();
        lemma_first_word(rest);
        assert forall|i: int| 0 <= i < first_word_len(s) implies !is_whitespace(s[i]) by {
            if i > 0 {
                assert(s[i] == rest[i - 1]);
            }
        }
        if first_word_len(s) < s.len() {
            assert(s[first_word_len(s) as int] == rest[first_word_len(rest) as int]);
        }
    }
}

/// Every word of a text is a run of characters that are not whitespace,
/// and none is empty.
pub proof fn lemma_words_are_words(s: Seq<char>)
    ensures
        forall|i: int| 0 <= i < words(s).len() ==> is_word(#[trigger] words(s)[i]),
    decreases s.len(),
{
    if s.len() == 0 {
    } else if is_whitespace(s[0]) {
        lemma_words_are_words(s.drop_first());
        assert(words(s) == words(s.drop_first()));
    } else {
        lemma_first_word(s);
        let n = first_word_len(s) as int;
        if n < s.len() {
            let first = s.take(n);
            let rest = words(s.skip(n + 1));
            lemma_words_are_words(s.skip(n + 1));
            assert(is_word(first)) by {
                assert forall|j: int| 0 <= j < first.len() implies !is_whitespace(
                    #[trigger] first[j],
                ) by {
                    assert(first[j] == s[j]);
                }
            }
            assert forall|i: int| 0 <= i < words(s).len() implies is_word(
                #[trigger] words(s)[i],
            ) by {
                if i == 0 {
                    assert(words(s)[0] == first);
                } else {
                    assert(words(s)[i] == rest[i - 1]);
                }
            }
        } else {
            assert(is_word(s));
            assert(words(s) == seq![s]);
            assert forall|i: int| 0 <= i < words(s).len() implies is_word(
                #[trigger] words(s)[i],
            ) by {
                assert(words(s)[i] == s);
            }
        }
    }
}

/// Where the first whitespace of `s` stands, there the first word ends.
pub proof fn lemma_first_word_ends_at(s: Seq<char>, n: int)
    requires
        0 <= n <= s.len(),
        forall|i: int| 0 <= i < n ==> !is_whitespace(s[i]),
        n < s.len() ==> is_whitespace(s[n]),
    ensures
        first_word_len(s) == n,
    decreases s.len(),
{
    if n > 0 {
        let rest = s.drop_first();
        assert forall|i: int| 0 <= i < n - 1 implies !is_whitespace(rest[i]) by {
            assert(rest[i] == s[i + 1]);
        }
        lemma_first_word_ends_at(rest, n - 1);
    }
}

/// Whitespace alone holds no word.
pub proof fn lemma_words_of_whitespace(s: Seq<char>)
    requires
        all_whitespace(s),
    ensures
        words(s) == Seq::<Seq<char>>::empty(),
    decreases s.len(),
{
    if s.len() > 0 {
        let rest = s.drop_first();
        assert forall|i: int| 0 <= i < rest.len() implies is_whitespace(#[trigger] rest[i]) by {
            assert(rest[i] == s[i + 1]);
        }
        lemma_words_of_whitespace(rest);
    }
}

/// The words of two texts put together are the words of the first and
/// then those of the second, unless a word lies across the place where
/// they meet.
pub proof fn lemma_words_concat(a: Seq<char>, b: Seq<char>)
    requires
        !joined(a, b),
    ensures
        words(a + b) == words(a) + words(b),
    decreases a.len(),
{
    let s = a + b;
    if a.len() == 0 {
        assert(s =~= b);
        assert(words(a) + words(b) =~= words(b));
    } else if b.len() == 0 {
        assert(s =~= a);
        assert(words(a) + words(b) =~= words(a));
    } else if is_whitespace(a[0]) {
        let rest = a.drop_first();
        assert(s.drop_first() =~= rest + b);
        if rest.len() > 0 {
            assert(rest.last() == a.last());
        }
        lemma_words_concat(rest, b);
    } else {
        lemma_first_word(a);
        let n = first_word_len(a) as int;
        assert forall|i: int| 0 <= i < n implies !is_whitespace(s[i]) by {
            assert(s[i] == a[i]);
        }
        if n < a.len() {
            assert(s[n] == a[n]);
            lemma_first_word_ends_at(s, n);
            let rest = a.skip(n + 1);
            assert(s.take(n) =~= a.take(n));
            assert(s.skip(n + 1) =~= rest + b);
            if rest.len() > 0 {
                assert(rest.last() == a.last());
            }
            lemma_words_concat(rest, b);
            assert(words(s) =~= words(a) + words(b));
        } else {
            assert(s[n] == b[0]);
            lemma_first_word_ends_at(s, n);
            assert(s.take(n) =~= a);
            assert(s.skip(n + 1) =~= b.drop_first());
            assert(words(s) =~= words(a) + words(b));
        }
    }
}

/// One more character at the end of a word makes no new word.
pub proof fn lemma_word_count_extend(s: Seq<char>, c: char)
    requires
        s.len() > 0,
        !is_whitespace(s.last()),
        !is_whitespace(c),
    ensures
        word_count(s.push(c)) == word_count(s),
    decreases s.len(),
{
    let t = s.push(c);
    if is_whitespace(s[0]) {
        let rest = s.drop_first();
        assert(t.drop_first() =~= rest.push(c));
        assert(rest.last() == s.last());
        lemma_word_count_extend(rest, c);
    } else {
        lemma_first_word(s);
        let n = first_word_len(s) as int;
        assert forall|i: int| 0 <= i < n implies !is_whitespace(t[i]) by {
            assert(t[i] == s[i]);
        }
        if n < s.len() {
            assert(t[n] == s[n]);
            lemma_first_word_ends_at(t, n);
            let rest = s.skip(n + 1);
            assert(t.skip(n + 1) =~= rest.push(c));
            assert(rest.last() == s.last());
            lemma_word_count_extend(rest, c);
        } else {
            lemma_first_word_ends_at(t, n + 1);
        }
    }
}

/// How one more character changes the number of words: it starts a word
/// if it is no whitespace and stands first or after whitespace, and
/// leaves the number as it is otherwise.
pub proof fn lemma_word_count_push(s: Seq<char>, c: char)
    ensures
        word_count(s.push(c)) == word_count(s) + if !is_whitespace(c) && (s.len() == 0
            || is_whitespace(s.last())) {
            1nat
        } else {
            0nat
        },
{
    let one = seq![c];
    assert(s.push(c) =~= s + one);
    if is_whitespace(c) {
        lemma_words_concat(s, one);
        lemma_words_of_whitespace(one);
    } else if s.len() == 0 || is_whitespace(s.last()) {
        lemma_words_concat(s, one);
        lemma_first_word_ends_at(one, 1);
        assert(words(one) == seq![one]);
    } else {
        lemma_word_count_extend(s, c);
    }
}

/// Whitespace before and after a text changes none of its words.
pub proof fn lemma_surrounding_whitespace(before: Seq<char>, s: Seq<char>, after: Seq<char>)
    requires
        all_whitespace(before),
        all_whitespace(after),
    ensures
        words(before + s + after) == words(s),
        word_count(before + s + after) == word_count(s),
{
    lemma_words_of_whitespace(before);
    lemma_words_of_whitespace(after);
    lemma_words_concat(before, s);
    lemma_words_concat(before + s, after);
    assert(words(before) + words(s) + words(after) =~= words(s));
}

/// Between two parts of a text, any whitespace does what a single space
/// does: whichever two runs of whitespace stand there, neither of them
/// empty, the words are the same.
pub proof fn lemma_whitespace_runs(a: Seq<char>, gap: Seq<char>, other: Seq<char>, b: Seq<char>)
    requires
        all_whitespace(gap),
        all_whitespace(other),
        gap.len() > 0,
        other.len() > 0,
    ensures
        words(a + gap + b) == words(a + other + b),
        word_count(a + gap + b) == word_count(a + other + b),
        words(a + gap + b) == words(a + seq![' '] + b),
{
    lemma_gap(a, gap, b);
    lemma_gap(a, other, b);
    lemma_gap(a, seq![' '], b);
}

/// The words around a run of whitespace are those before it and then
/// those after it.
proof fn lemma_gap(a: Seq<char>, gap: Seq<char>, b: Seq<char>)
    requires
        all_whitespace(gap),
        gap.len() > 0,
    ensures
        words(a + gap + b) == words(a) + words(b),
{
    lemma_words_of_whitespace(gap);
    lemma_words_concat(a, gap);
    assert((a + gap).last() == gap.last());
    lemma_words_concat(a + gap, b);
    assert(words(a) + words(gap) + words(b) =~= words(a) + words(b));
}

/// Tells whether `c` separates words.
pub fn separates_words(c: char) -> (b: bool)
    ensures
        b == is_whitespace(c),
{
    c == ' ' || c == '\t' || c == '\n' || c == '\r' || c == '\u{c}' || c == '\u{b}'
}

/// Counts the words of `s`.
pub fn count_words(s: &str) -> (n: usize)
    ensures
        n == word_count(s@),
{
    let limit = s.as_bytes().len();
    proof {
        lemma_chars_le_bytes(s@);
    }
    let mut words: usize = 0;
    let mut in_word: bool = false;
    let chars = s.chars();
    for c in it: chars
        invariant
            it.seq() == s@,
            words == word_count(s@.take(it.index())),
            words <= it.index(),
            in_word == (it.index() > 0 && !is_whitespace(s@[it.index() - 1])),
            s@.len() <= limit,
    {
        proof {
            assert(s@.take(it.index() + 1) =~= s@.take(it.index()).push(c));
            lemma_word_count_push(s@.take(it.index()), c);
        }
        if separates_words(c) {
            in_word = false;
        } else {
            if !in_word {
                words = words + 1;
            }
            in_word = true;
        }
    }
    assert(s@.take(s@.len() as int) =~= s@);
    words
}

} // verus!
