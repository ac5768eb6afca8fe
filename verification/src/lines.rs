//! The lines of a text.
//!
//! A line ends with a line feed, or with a carriage return and a line
//! feed; the last line may end with the text instead. The text after the
//! last line feed is a line only if it is not empty.

use vstd::prelude::*;

use crate::bytes::lemma_chars_le_bytes;

verus! {

/// Length of the first line of `s`, its end not counted: the number of
/// characters before the first line feed, and all of them if there is
/// none.
pub open spec fn first_line_len(s: Seq<char>) -> nat
    decreases s.len(),
{
    if s.len() == 0 || s[0] == '\n' {
        0
    } else {
        1 + first_line_len(s.drop_first())
    }
}

/// The text `line`, which a line feed followed, without the carriage
/// return that belongs to the end of the line.
pub open spec fn without_cr(line: Seq<char>) -> Seq<char> {
    if line.len() > 0 && line.last() == '\r' {
        line.drop_last()
    } else {
        line
    }
}

/// The lines of `s`, in order and without their ends: the text before the
/// first line feed, less a carriage return at its end, and then the lines
/// of the text after that line feed. Text that no line feed follows is a
/// line as it is, unless it is empty.
pub open spec fn lines(s: Seq<char>) -> Seq<Seq<char>>
    decreases s.len(),
{
    if s.len() == 0 {
        Seq::empty()
    } else {
        let n = first_line_len(s) as int;
        if n >= s.len() {
            seq![s]
        } else {
            seq![without_cr(s.take(n))] + lines(s.skip(n + 1))
        }
    }
}

/// Number of lines of `s`.
pub open spec fn line_count(s: Seq<char>) -> nat {
    lines(s).len()
}

/// Number of line feeds in `s`.
pub open spec fn newline_count(s: Seq<char>) -> nat
    decreases s.len(),
{
    if s.len() == 0 {
        0
    } else {
        newline_count(s.drop_last()) + if s.last() == '\n' { 1nat } else { 0nat }
    }
}

/// Whether `s` ends in a line that no line feed ends.
pub open spec fn ends_in_open_line(s: Seq<char>) -> bool {
    s.len() > 0 && s.last() != '\n'
}

/// The first line ends at the first line feed: there is none before its
/// end, and one at its end unless the text ends there.
pub proof fn lemma_first_line(s: Seq<char>)
    ensures
        first_line_len(s) <= s.len(),
        forall|i: int| 0 <= i < first_line_len(s) ==> s[i] != '\n',
        first_line_len(s) < s.len() ==> s[first_line_len(s) as int] == '\n',
    decreases s.len(),
{
    if s.len() > 0 && s[0] != '\n' {
        let rest = s.drop_first();
        lemma_first_line(rest);
        assert forall|i: int| 0 <= i < first_line_len(s) implies s[i] != '\n' by {
            if i > 0 {
                assert(s[i] == rest[i - 1]);
            }
        }
        if first_line_len(s) < s.len() {
            assert(s[first_line_len(s) as int] == rest[first_line_len(rest) as int]);
        }
    }
}

/// No line of a text holds a line feed.
pub proof fn lemma_lines_hold_no_line_feed(s: Seq<char>)
    ensures
        forall|i: int, j: int|
            0 <= i < lines(s).len() && 0 <= j < lines(s)[i].len() ==> #[trigger] lines(
                s,
            )[i][j] != '\n',
    decreases s.len(),
{
    if s.len() > 0 {
        lemma_first_line(s);
        let n = first_line_len(s) as int;
        if n < s.len() {
            let first = without_cr(s.take(n));
            let rest = lines(s.skip(n + 1));
            lemma_lines_hold_no_line_feed(s.skip(n + 1));
            assert forall|i: int, j: int|
                0 <= i < lines(s).len() && 0 <= j < lines(s)[i].len() implies #[trigger] lines(
                s,
            )[i][j] != '\n' by {
                if i == 0 {
                    assert(lines(s)[0] == first);
                    assert(first[j] == s[j]);
                } else {
                    assert(lines(s)[i] == rest[i - 1]);
                }
            }
        }
    }
}

/// The line feeds of a text are those of its parts.
pub proof fn lemma_newline_count_concat(a: Seq<char>, b: Seq<char>)
    ensures
        newline_count(a + b) == newline_count(a) + newline_count(b),
    decreases b.len(),
{
    if b.len() == 0 {
        assert(a + b =~= a);
    } else {
        assert((a + b).drop_last() =~= a + b.drop_last());
        lemma_newline_count_concat(a, b.drop_last());
    }
}

/// A text without a line feed counts none.
pub proof fn lemma_newline_count_zero(s: Seq<char>)
    requires
        forall|i: int| 0 <= i < s.len() ==> s[i] != '\n',
    ensures
        newline_count(s) == 0,
    decreases s.len(),
{
    if s.len() > 0 {
        lemma_newline_count_zero(s.drop_last());
    }
}

/// A text has as many lines as line feeds, and one more if it ends in a
/// line that no line feed ends.
pub proof fn lemma_line_count(s: Seq<char>)
    ensures
        line_count(s) == newline_count(s) + if ends_in_open_line(s) { 1nat } else { 0nat },
    decreases s.len(),
{
    if s.len() > 0 {
        lemma_first_line(s);
        let n = first_line_len(s) as int;
        if n >= s.len() {
            lemma_newline_count_zero(s);
        } else {
            let head = s.take(n);
            let rest = s.skip(n + 1);
            lemma_line_count(rest);
            lemma_newline_count_zero(head);
            assert(s =~= head + seq!['\n'] + rest);
            lemma_newline_count_concat(head + seq!['\n'], rest);
            lemma_newline_count_concat(head, seq!['\n']);
            assert(newline_count(seq!['\n']) == 1) by {
                reveal_with_fuel(newline_count, 2);
            }
            if rest.len() > 0 {
                assert(s.last() == rest.last());
            }
        }
    }
}

/// A text without a line feed is one line, and no line if it is empty.
pub proof fn lemma_lines_without_newline(s: Seq<char>)
    requires
        forall|i: int| 0 <= i < s.len() ==> s[i] != '\n',
    ensures
        lines(s) == if s.len() == 0 {
            Seq::<Seq<char>>::empty()
        } else {
            seq![s]
        },
        line_count(s) == if s.len() == 0 {
            0nat
        } else {
            1nat
        },
{
    lemma_first_line(s);
}

/// A line feed at the end of a text ends the last line if that is open,
/// and is an empty line of its own otherwise.
pub proof fn lemma_line_feed_at_end(s: Seq<char>)
    ensures
        line_count(s.push('\n')) == if ends_in_open_line(s) {
            line_count(s)
        } else {
            line_count(s) + 1
        },
{
    lemma_line_count(s);
    lemma_line_count(s.push('\n'));
    assert(s.push('\n').drop_last() =~= s);
}

/// Ending the last line changes no count: a text that ends in a line that
/// no line feed ends has as many lines with a line feed after it, and as
/// many with a carriage return and a line feed after it.
pub proof fn lemma_trailing_line_end(s: Seq<char>)
    requires
        ends_in_open_line(s),
    ensures
        line_count(s.push('\n')) == line_count(s),
        line_count(s + seq!['\r', '\n']) == line_count(s),
{
    lemma_line_feed_at_end(s);
    lemma_line_count(s);
    let t = s + seq!['\r', '\n'];
    lemma_line_count(t);
    assert(t.drop_last() =~= s.push('\r'));
    assert(s.push('\r').drop_last() =~= s);
    assert(newline_count(s.push('\r')) == newline_count(s));
    assert(newline_count(t) == newline_count(s) + 1);
}

/// Counts the lines of `s`.
pub fn count_lines(s: &str) -> (n: usize)
    ensures
        n == line_count(s@),
{
    let limit = s.as_bytes().len();
    proof {
        lemma_chars_le_bytes(s@);
        lemma_line_count(s@);
    }
    let mut newlines: usize = 0;
    let mut open: bool = false;
    let chars = s.chars();
    for c in it: chars
        invariant
            it.seq() == s@,
            newlines == newline_count(s@.take(it.index())),
            open == ends_in_open_line(s@.take(it.index())),
            newlines + if open { 1int } else { 0int } <= it.index(),
            s@.len() <= limit,
    {
        assert(s@.take(it.index() + 1).drop_last() =~= s@.take(it.index()));
        if c == '\n' {
            newlines = newlines + 1;
            open = false;
        } else {
            open = true;
        }
    }
    assert(s@.take(s@.len() as int) =~= s@);
    if open {
        newlines + 1
    } else {
        newlines
    }
}

} // verus!
