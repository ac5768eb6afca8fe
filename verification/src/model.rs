//! The report as mathematics: what was counted for each input, the totals
//! row, the width of the columns and the text of every line.

use vstd::prelude::*;
use vstd::utf8::is_ascii_chars;

use crate::bytes::{byte_count, lemma_chars_le_bytes};
use crate::cli::Columns;
use crate::decimal::{
    digit_count, lemma_digit_count_monotonic, lemma_right_justified_len, right_justified,
};
use crate::lines::line_count;
use crate::words::word_count;

verus! {

/// The four counts of one input, and the label they are printed under.
pub struct Summary {
    pub lines: nat,
    pub words: nat,
    pub chars: nat,
    pub bytes: nat,
    pub label: Seq<char>,
}

/// What became of one requested input: its counts, or the reason why
/// there are none.
pub enum Outcome {
    Success(Summary),
    Failure(Seq<char>),
}

/// A line of the report, with the stream it goes to.
pub enum Output {
    Stdout(Seq<char>),
    Stderr(Seq<char>),
}

/// The counts of `content`, not yet labelled.
pub open spec fn counts_of(content: Seq<char>) -> Summary {
    Summary {
        lines: line_count(content),
        words: word_count(content),
        chars: content.len(),
        bytes: byte_count(content),
        label: Seq::empty(),
    }
}

/// The outcome for the input `name`, given what fetching it brought: the
/// counts of its content under its name, or the reason of the failure
/// followed by a colon, a space and the name.
pub open spec fn outcome_of(name: Seq<char>, fetched: Result<Seq<char>, Seq<char>>) -> Outcome {
    match fetched {
        Ok(content) => Outcome::Success(Summary { label: name, ..counts_of(content) }),
        Err(reason) => Outcome::Failure(reason + seq![':', ' '] + name),
    }
}

/// The counts of the successes among `outcomes`, in their order. A failure
/// leaves nothing here.
pub open spec fn successes(outcomes: Seq<Outcome>) -> Seq<Summary>
    decreases outcomes.len(),
{
    if outcomes.len() == 0 {
        Seq::empty()
    } else {
        let before = successes(outcomes.drop_last());
        match outcomes.last() {
            Outcome::Success(s) => before.push(s),
            Outcome::Failure(_) => before,
        }
    }
}

/// Number of successes among `outcomes`.
pub open spec fn success_count(outcomes: Seq<Outcome>) -> nat {
    successes(outcomes).len()
}

/// The label of the totals row.
pub open spec fn total_label() -> Seq<char> {
    seq!['t', 'o', 't', 'a', 'l']
}

/// The sum of `rows`, count by count, under the label of the totals row.
pub open spec fn sum(rows: Seq<Summary>) -> Summary
    decreases rows.len(),
{
    if rows.len() == 0 {
        Summary { lines: 0, words: 0, chars: 0, bytes: 0, label: total_label() }
    } else {
        let before = sum(rows.drop_last());
        let s = rows.last();
        Summary {
            lines: before.lines + s.lines,
            words: before.words + s.words,
            chars: before.chars + s.chars,
            bytes: before.bytes + s.bytes,
            label: total_label(),
        }
    }
}

/// The totals row of `outcomes`: each count is the sum of that count over
/// the successes. Failures add nothing.
pub open spec fn totals(outcomes: Seq<Outcome>) -> Summary {
    sum(successes(outcomes))
}

/// Whether every count of the totals row fits in a machine word.
pub open spec fn totals_fit(outcomes: Seq<Outcome>) -> bool {
    let total = totals(outcomes);
    &&& total.lines <= usize::MAX
    &&& total.words <= usize::MAX
    &&& total.chars <= usize::MAX
    &&& total.bytes <= usize::MAX
}

/// The larger of two numbers.
pub open spec fn larger(a: nat, b: nat) -> nat {
    if a >= b {
        a
    } else {
        b
    }
}

/// The largest of the four counts of `s`.
pub open spec fn largest_count(s: Summary) -> nat {
    larger(larger(s.lines, s.words), larger(s.chars, s.bytes))
}

/// The largest count in `rows`, whichever of the four it is; zero when
/// there is no row.
pub open spec fn largest(rows: Seq<Summary>) -> nat
    decreases rows.len(),
{
    if rows.len() == 0 {
        0
    } else {
        larger(largest(rows.drop_last()), largest_count(rows.last()))
    }
}

/// The width of the number columns for `outcomes`: the number of digits of
/// the largest count of any success, shown or not, and zero when there is
/// no success.
pub open spec fn padding(outcomes: Seq<Outcome>) -> nat {
    if success_count(outcomes) == 0 {
        0
    } else {
        digit_count(largest(successes(outcomes)))
    }
}

/// `outcomes` as they are reported: followed by their totals row when more
/// than one of them is a success, and unchanged otherwise.
pub open spec fn with_total(outcomes: Seq<Outcome>) -> Seq<Outcome> {
    if success_count(outcomes) > 1 {
        outcomes.push(Outcome::Success(totals(outcomes)))
    } else {
        outcomes
    }
}

/// One number column: nothing when it is not shown, and else the count,
/// right-justified to `width`, and one space.
pub open spec fn column(shown: bool, count: nat, width: nat) -> Seq<char> {
    if shown {
        right_justified(count, width).push(' ')
    } else {
        Seq::empty()
    }
}

/// The line for the counts `s`: the columns that `columns` shows, in the
/// order lines, words, characters, bytes, and then the label.
pub open spec fn summary_line(s: Summary, width: nat, columns: Columns) -> Seq<char> {
    column(columns.lines, s.lines, width) + column(columns.words, s.words, width) + column(
        columns.chars,
        s.chars,
        width,
    ) + column(columns.bytes, s.bytes, width) + s.label
}

/// The line for one outcome: the counts of a success for the standard
/// output, the message of a failure, as it is, for the standard error.
pub open spec fn rendered(outcome: Outcome, width: nat, columns: Columns) -> Output {
    match outcome {
        Outcome::Success(s) => Output::Stdout(summary_line(s, width, columns)),
        Outcome::Failure(message) => Output::Stderr(message),
    }
}

/// The lines for `outcomes`, one for each in their order, all with the
/// same `width`.
pub open spec fn rendered_all(outcomes: Seq<Outcome>, width: nat, columns: Columns) -> Seq<Output> {
    Seq::new(outcomes.len(), |i: int| rendered(outcomes[i], width, columns))
}

/// The whole report for `outcomes`: their lines and that of the totals row,
/// if there is one, in columns as wide as the largest count printed or not.
pub open spec fn report(outcomes: Seq<Outcome>, columns: Columns) -> Seq<Output> {
    let all = with_total(outcomes);
    rendered_all(all, padding(all), columns)
}

/// What one more outcome adds to the successes: its counts, or nothing.
pub proof fn lemma_successes_push(outcomes: Seq<Outcome>, next: Outcome)
    ensures
        successes(outcomes.push(next)) == match next {
            Outcome::Success(s) => successes(outcomes).push(s),
            Outcome::Failure(_) => successes(outcomes),
        },
{
    assert(outcomes.push(next).drop_last() =~= outcomes);
}

/// What one more outcome adds to the totals: its counts, or nothing.
pub proof fn lemma_totals_push(outcomes: Seq<Outcome>, next: Outcome)
    ensures
        success_count(outcomes.push(next)) == success_count(outcomes) + if next is Success {
            1nat
        } else {
            0nat
        },
        totals(outcomes.push(next)) == match next {
            Outcome::Success(s) => Summary {
                lines: totals(outcomes).lines + s.lines,
                words: totals(outcomes).words + s.words,
                chars: totals(outcomes).chars + s.chars,
                bytes: totals(outcomes).bytes + s.bytes,
                label: total_label(),
            },
            Outcome::Failure(_) => totals(outcomes),
        },
        totals(outcomes).label == total_label(),
{
    lemma_successes_push(outcomes, next);
    match next {
        Outcome::Success(s) => {
            assert(successes(outcomes).push(s).drop_last() =~= successes(outcomes));
        },
        Outcome::Failure(_) => {},
    }
}

/// The totals grow with the outcomes: what the first `k` of them add up to
/// is no more than what all of them add up to.
pub proof fn lemma_totals_of_prefix(outcomes: Seq<Outcome>, k: int)
    requires
        0 <= k <= outcomes.len(),
    ensures
        success_count(outcomes.take(k)) <= success_count(outcomes),
        totals(outcomes.take(k)).lines <= totals(outcomes).lines,
        totals(outcomes.take(k)).words <= totals(outcomes).words,
        totals(outcomes.take(k)).chars <= totals(outcomes).chars,
        totals(outcomes.take(k)).bytes <= totals(outcomes).bytes,
    decreases outcomes.len(),
{
    if k == outcomes.len() {
        assert(outcomes.take(k) =~= outcomes);
    } else {
        let before = outcomes.drop_last();
        lemma_totals_of_prefix(before, k);
        assert(before.take(k) =~= outcomes.take(k));
        assert(outcomes =~= before.push(outcomes.last()));
        lemma_totals_push(before, outcomes.last());
    }
}

/// The number of digits of the largest count of `s` is the largest number
/// of digits among its four counts.
pub proof fn lemma_widest_count(s: Summary)
    ensures
        digit_count(largest_count(s)) == larger(
            larger(digit_count(s.lines), digit_count(s.words)),
            larger(digit_count(s.chars), digit_count(s.bytes)),
        ),
{
    let m = largest_count(s);
    lemma_digit_count_monotonic(s.lines, m);
    lemma_digit_count_monotonic(s.words, m);
    lemma_digit_count_monotonic(s.chars, m);
    lemma_digit_count_monotonic(s.bytes, m);
}

/// How one more outcome changes the width of the columns: a success widens
/// them to the digits of its largest count, if that is more; a failure
/// leaves them as they are.
pub proof fn lemma_padding_push(outcomes: Seq<Outcome>, next: Outcome)
    ensures
        padding(outcomes.push(next)) == match next {
            Outcome::Success(s) => larger(padding(outcomes), digit_count(largest_count(s))),
            Outcome::Failure(_) => padding(outcomes),
        },
{
    lemma_successes_push(outcomes, next);
    match next {
        Outcome::Success(s) => {
            let rows = successes(outcomes);
            assert(rows.push(s).drop_last() =~= rows);
            let m = largest_count(s);
            let before = largest(rows);
            if before >= m {
                lemma_digit_count_monotonic(m, before);
            } else {
                lemma_digit_count_monotonic(before, m);
            }
        },
        Outcome::Failure(_) => {},
    }
}

/// The totals row is at least as large as every row that it sums, count
/// by count, and so its largest count is the largest of all.
pub proof fn lemma_sum_dominates(rows: Seq<Summary>)
    ensures
        forall|i: int|
            0 <= i < rows.len() ==> {
                &&& (#[trigger] rows[i]).lines <= sum(rows).lines
                &&& rows[i].words <= sum(rows).words
                &&& rows[i].chars <= sum(rows).chars
                &&& rows[i].bytes <= sum(rows).bytes
            },
        largest(rows) <= largest_count(sum(rows)),
    decreases rows.len(),
{
    if rows.len() > 0 {
        let before = rows.drop_last();
        lemma_sum_dominates(before);
        assert forall|i: int| 0 <= i < rows.len() implies {
            &&& (#[trigger] rows[i]).lines <= sum(rows).lines
            &&& rows[i].words <= sum(rows).words
            &&& rows[i].chars <= sum(rows).chars
            &&& rows[i].bytes <= sum(rows).bytes
        } by {
            if i < rows.len() - 1 {
                assert(rows[i] == before[i]);
            }
        }
    }
}

/// The totals row sums the successes and nothing else: with more than one
/// success it is the last outcome reported, after all the others in their
/// order, and with fewer there is none, however many failures there are.
pub proof fn lemma_total_row(outcomes: Seq<Outcome>)
    ensures
        success_count(outcomes) <= 1 ==> with_total(outcomes) == outcomes,
        success_count(outcomes) > 1 ==> with_total(outcomes).len() == outcomes.len() + 1,
        success_count(outcomes) > 1 ==> with_total(outcomes).drop_last() == outcomes,
        success_count(outcomes) > 1 ==> with_total(outcomes).last() == Outcome::Success(
            sum(successes(outcomes)),
        ),
        forall|i: int| 0 <= i < outcomes.len() ==> with_total(outcomes)[i] == outcomes[i],
{
    if success_count(outcomes) > 1 {
        assert(with_total(outcomes).drop_last() =~= outcomes);
    }
}

/// With a totals row, the columns are as wide as the largest total is
/// long.
pub proof fn lemma_padding_with_total(outcomes: Seq<Outcome>)
    requires
        success_count(outcomes) > 1,
    ensures
        padding(with_total(outcomes)) == digit_count(largest_count(totals(outcomes))),
{
    let total = totals(outcomes);
    lemma_padding_push(outcomes, Outcome::Success(total));
    lemma_sum_dominates(successes(outcomes));
    lemma_digit_count_monotonic(largest(successes(outcomes)), largest_count(total));
}

/// No count of a success is longer than the columns are wide.
pub proof fn lemma_padding_covers(outcomes: Seq<Outcome>, i: int)
    requires
        0 <= i < outcomes.len(),
        outcomes[i] is Success,
    ensures
        digit_count(outcomes[i]->Success_0.lines) <= padding(outcomes),
        digit_count(outcomes[i]->Success_0.words) <= padding(outcomes),
        digit_count(outcomes[i]->Success_0.chars) <= padding(outcomes),
        digit_count(outcomes[i]->Success_0.bytes) <= padding(outcomes),
    decreases outcomes.len(),
{
    let before = outcomes.drop_last();
    assert(outcomes =~= before.push(outcomes.last()));
    lemma_padding_push(before, outcomes.last());
    if i == outcomes.len() - 1 {
        lemma_widest_count(outcomes[i]->Success_0);
    } else {
        assert(before[i] == outcomes[i]);
        lemma_padding_covers(before, i);
    }
}

/// For a text that is all ASCII, the column of the characters and the
/// column of the bytes read the same, and so do the lines that show one
/// of the two.
pub proof fn lemma_ascii_chars_as_bytes(content: Seq<char>, label: Seq<char>, width: nat)
    requires
        is_ascii_chars(content),
    ensures
        counts_of(content).chars == counts_of(content).bytes,
        ({
            let s = Summary { label, ..counts_of(content) };
            let chars = Columns { lines: false, words: false, chars: true, bytes: false };
            let bytes = Columns { lines: false, words: false, chars: false, bytes: true };
            summary_line(s, width, chars) == summary_line(s, width, bytes)
        }),
{
    lemma_chars_le_bytes(content);
}

/// The report keeps the order of the inputs. It has one line for each
/// outcome and one more for the totals row, if there is one; the line at
/// the place of an outcome is the line of that outcome, for the standard
/// error exactly when the outcome is a failure; and the line of the totals
/// row comes last. Every line is written with the same width, which does
/// not depend on the columns shown.
pub proof fn lemma_report_order(outcomes: Seq<Outcome>, columns: Columns)
    ensures
        report(outcomes, columns).len() == outcomes.len() + if success_count(outcomes) > 1 {
            1nat
        } else {
            0nat
        },
        forall|i: int|
            0 <= i < outcomes.len() ==> #[trigger] report(outcomes, columns)[i] == rendered(
                outcomes[i],
                padding(with_total(outcomes)),
                columns,
            ),
        forall|i: int|
            0 <= i < outcomes.len() ==> (#[trigger] report(outcomes, columns)[i] is Stderr
                <==> outcomes[i] is Failure),
        success_count(outcomes) > 1 ==> report(outcomes, columns).last() == Output::Stdout(
            summary_line(totals(outcomes), padding(with_total(outcomes)), columns),
        ),
{
    lemma_total_row(outcomes);
}

/// In a line of the report, every number column that is shown takes the
/// width of the columns and one space, so that the columns of all the
/// lines stand under one another.
pub proof fn lemma_columns_align(outcomes: Seq<Outcome>, i: int, columns: Columns)
    requires
        0 <= i < with_total(outcomes).len(),
        with_total(outcomes)[i] is Success,
    ensures
        ({
            let width = padding(with_total(outcomes));
            let s = with_total(outcomes)[i]->Success_0;
            &&& column(columns.lines, s.lines, width).len() == if columns.lines {
                width + 1
            } else {
                0
            }
            &&& column(columns.words, s.words, width).len() == if columns.words {
                width + 1
            } else {
                0
            }
            &&& column(columns.chars, s.chars, width).len() == if columns.chars {
                width + 1
            } else {
                0
            }
            &&& column(columns.bytes, s.bytes, width).len() == if columns.bytes {
                width + 1
            } else {
                0
            }
        }),
{
    let all = with_total(outcomes);
    let width = padding(all);
    let s = all[i]->Success_0;
    lemma_padding_covers(all, i);
    lemma_right_justified_len(s.lines, width);
    lemma_right_justified_len(s.words, width);
    lemma_right_justified_len(s.chars, width);
    lemma_right_justified_len(s.bytes, width);
}

} // verus!
