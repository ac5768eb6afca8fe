//! Counting inputs and reporting the counts.

use vstd::prelude::*;
use vstd::utf8::is_ascii_chars;

use crate::bytes::lemma_chars_le_bytes;
use crate::cli::{Cli, Columns};
use crate::decimal::{count_digits, digit_count, right_justify};
use crate::lines::count_lines;
use crate::model::{
    column, counts_of, larger, largest_count, lemma_padding_push, lemma_totals_of_prefix,
    lemma_totals_push, lemma_widest_count, outcome_of, padding, rendered, rendered_all, report,
    success_count, summary_line, total_label, totals, totals_fit, with_total, Outcome, Output,
    Summary,
};
use crate::words::count_words;

verus! {

/// Struct that contains info about the files that wc is told to get info about.
#[derive(Debug, PartialEq, Eq)]
pub struct FileSummary {
    /// Number of lines found in the file
    pub lines: usize,
    /// Number of words found in the file.
    pub words: usize,
    /// Number of characters found in the file.
    pub chars: usize,
    /// Number of bytes found in the file.
    pub bytes: usize,
    /// Label for thing being counted. Is either the file name or `total`.
    pub label: String,
}

impl View for FileSummary {
    type V = Summary;

    open spec fn view(&self) -> Summary {
        Summary {
            lines: self.lines as nat,
            words: self.words as nat,
            chars: self.chars as nat,
            bytes: self.bytes as nat,
            label: self.label@,
        }
    }
}

impl DeepView for FileSummary {
    type V = Summary;

    open spec fn deep_view(&self) -> Summary {
        self@
    }
}

/// Enum that handles the two cases that wc can run up against: a file, or an error message.
#[derive(Debug, PartialEq, Eq)]
pub enum WCResult {
    FileStats(FileSummary),
    ErrMsg(String),
}

impl View for WCResult {
    type V = Outcome;

    open spec fn view(&self) -> Outcome {
        match self {
            WCResult::FileStats(summary) => Outcome::Success(summary@),
            WCResult::ErrMsg(message) => Outcome::Failure(message@),
        }
    }
}

impl DeepView for WCResult {
    type V = Outcome;

    open spec fn deep_view(&self) -> Outcome {
        self@
    }
}

/// A line of the report, with the stream that it is written to.
#[derive(Debug, PartialEq, Eq)]
pub enum OutputLine {
    /// The counts of one input, or the totals.
    Stdout(String),
    /// The message for an input that could not be counted.
    Stderr(String),
}

impl View for OutputLine {
    type V = Output;

    open spec fn view(&self) -> Output {
        match self {
            OutputLine::Stdout(text) => Output::Stdout(text@),
            OutputLine::Stderr(text) => Output::Stderr(text@),
        }
    }
}

impl DeepView for OutputLine {
    type V = Output;

    open spec fn deep_view(&self) -> Output {
        self@
    }
}

/// Utility function to count lines, words, characters and bytes in the
/// given contents. Return a `FileSummary` struct with an empty label.
///
/// The characters never outnumber the bytes, and equal them exactly when
/// the contents are ASCII.
pub fn handle_file_contents(contents: String) -> (fs: FileSummary)
    ensures
        fs@ == counts_of(contents@),
        fs.chars <= fs.bytes,
        fs.chars == fs.bytes <==> is_ascii_chars(contents@),
{
    proof {
        lemma_chars_le_bytes(contents@);
    }
    let text = contents.as_str();
    let bytes = text.as_bytes().len();
    FileSummary {
        lines: count_lines(text),
        words: count_words(text),
        chars: text.unicode_len(),
        bytes,
        label: String::new(),
    }
}

/// What fetching an input brought, as mathematics: its content, or the
/// reason why it could not be had.
pub open spec fn fetched_view(fetched: Result<String, String>) -> Result<Seq<char>, Seq<char>> {
    match fetched {
        Ok(content) => Ok(content@),
        Err(reason) => Err(reason@),
    }
}

/// Summarize one file, from what reading it brought.
///
/// Content is counted and labelled with `file_path` as it was given. A
/// failure becomes its reason, a colon, a space and `file_path`.
pub fn summarize_file(file_path: &String, contents: Result<String, String>) -> (summary: WCResult)
    ensures
        summary@ == outcome_of(file_path@, fetched_view(contents)),
{
    match contents {
        Ok(c) => {
            let mut summary = handle_file_contents(c);
            summary.label = file_path.clone();
            WCResult::FileStats(summary)
        },
        Err(e) => {
            proof {
                reveal_strlit(": ");
            }
            let message = e.concat(": ").concat(file_path.as_str());
            assert(message@ =~= e@ + seq![':', ' '] + file_path@);
            WCResult::ErrMsg(message)
        },
    }
}

/// Whether `outcome` is the outcome for the input `name` after some
/// answer that `fetch` can give for it.
pub open spec fn fetched_as<F: Fn(&String) -> Result<String, String>>(
    fetch: F,
    name: String,
    outcome: Outcome,
) -> bool {
    exists|fetched: Result<String, String>|
        #![trigger call_ensures(fetch, (&name,), fetched)]
        call_ensures(fetch, (&name,), fetched) && outcome == outcome_of(
            name@,
            fetched_view(fetched),
        )
}

/// Whether `outcomes` are the outcomes for the inputs `names`, one for each
/// and in their order, each after some answer that `fetch` can give for
/// that input.
pub open spec fn summarizes<F: Fn(&String) -> Result<String, String>>(
    fetch: F,
    names: Seq<String>,
    outcomes: Seq<Outcome>,
) -> bool {
    &&& outcomes.len() == names.len()
    &&& forall|i: int| 0 <= i < names.len() ==> fetched_as(fetch, names[i], #[trigger] outcomes[i])
}

/// Take a list of files and summarize them.
///
/// Return a Vec of `WCResult` enums, one for each of `file_names` and in
/// their order, which can either be a `FileSummary` struct, or a `String`
/// which should be an error message. `fetch` is asked once for each file,
/// in order, and one file that cannot be had does not stop the others.
pub fn summarize_files<F: Fn(&String) -> Result<String, String>>(
    file_names: &Vec<String>,
    fetch: F,
) -> (summaries: Vec<WCResult>)
    requires
        forall|i: int| 0 <= i < file_names.len() ==> call_requires(fetch, (&file_names[i],)),
    ensures
        summaries.len() == file_names.len(),
        summarizes(fetch, file_names@, summaries.deep_view()),
{
    let mut summaries: Vec<WCResult> = Vec::new();
    let mut i: usize = 0;
    while i < file_names.len()
        invariant
            i <= file_names.len(),
            summaries.len() == i,
            forall|k: int| 0 <= k < file_names.len() ==> call_requires(fetch, (&file_names[k],)),
            forall|k: int|
                0 <= k < i ==> fetched_as(fetch, file_names[k], #[trigger] summaries.deep_view()[k]),
        decreases file_names.len() - i,
    {
        let file_path = &file_names[i];
        let contents = fetch(file_path);
        let ghost answer = contents;
        let summary = summarize_file(file_path, contents);
        let ghost before = summaries.deep_view();
        summaries.push(summary);
        proof {
            assert(summaries.deep_view() =~= before.push(summary@));
            assert(call_ensures(fetch, (&file_names[i as int],), answer));
            assert(fetched_as(fetch, file_names[i as int], summaries.deep_view()[i as int]));
        }
        i = i + 1;
    }
    summaries
}

/// Tells whether the totals of `summaries` can be computed: whether each
/// of the four sums fits in a `usize`.
pub fn can_total(summaries: &Vec<WCResult>) -> (fit: bool)
    ensures
        fit == totals_fit(summaries.deep_view()),
{
    let ghost all = summaries.deep_view();
    let mut lines: usize = 0;
    let mut words: usize = 0;
    let mut chars: usize = 0;
    let mut bytes: usize = 0;
    let mut i: usize = 0;
    assert(all.take(0) =~= Seq::<Outcome>::empty());
    while i < summaries.len()
        invariant
            i <= summaries.len(),
            summaries.deep_view() == all,
            lines == totals(all.take(i as int)).lines,
            words == totals(all.take(i as int)).words,
            chars == totals(all.take(i as int)).chars,
            bytes == totals(all.take(i as int)).bytes,
        decreases summaries.len() - i,
    {
        proof {
            assert(all.take(i + 1) =~= all.take(i as int).push(all[i as int]));
            assert(all[i as int] == summaries[i as int]@);
            lemma_totals_of_prefix(all, i + 1);
            lemma_totals_push(all.take(i as int), all[i as int]);
        }
        match &summaries[i] {
            WCResult::FileStats(summary) => {
                match (
                    lines.checked_add(summary.lines),
                    words.checked_add(summary.words),
                    chars.checked_add(summary.chars),
                    bytes.checked_add(summary.bytes),
                ) {
                    (Some(l), Some(w), Some(c), Some(b)) => {
                        lines = l;
                        words = w;
                        chars = c;
                        bytes = b;
                    },
                    _ => {
                        return false;
                    },
                }
            },
            WCResult::ErrMsg(_) => {},
        }
        i = i + 1;
    }
    assert(all.take(i as int) =~= all);
    true
}

/// The wider of `max_len` and the digits of the counts of `summary`.
fn widened(max_len: usize, summary: &FileSummary) -> (wider: usize)
    ensures
        wider == larger(max_len as nat, digit_count(largest_count(summary@))),
{
    proof {
        lemma_widest_count(summary@);
    }
    let mut wider = max_len;
    let lines = count_digits(summary.lines);
    if lines > wider {
        wider = lines;
    }
    let words = count_digits(summary.words);
    if words > wider {
        wider = words;
    }
    let chars = count_digits(summary.chars);
    if chars > wider {
        wider = chars;
    }
    let bytes = count_digits(summary.bytes);
    if bytes > wider {
        wider = bytes;
    }
    wider
}

/// Get totals of all files, if there is more than one.
///
/// When more than one of `summaries` holds counts, a row with the label
/// `total` is added at the end, each of its counts the sum of that count
/// over the others. Error messages add nothing and do not count. With no
/// or one row of counts, `summaries` stays as it is.
///
/// Returns the length of the longest number in all of the rows, the new
/// one included, whichever of the four counts it is: this is used as
/// padding later. It is zero when no row holds counts.
pub fn get_totals(summaries: &mut Vec<WCResult>) -> (max_len: usize)
    requires
        totals_fit(old(summaries).deep_view()),
    ensures
        final(summaries).deep_view() == with_total(old(summaries).deep_view()),
        max_len == padding(final(summaries).deep_view()),
{
    let ghost all = summaries.deep_view();
    let mut max_len: usize = 0;
    let mut successes: usize = 0;
    let mut lines: usize = 0;
    let mut words: usize = 0;
    let mut chars: usize = 0;
    let mut bytes: usize = 0;
    let mut i: usize = 0;
    assert(all.take(0) =~= Seq::<Outcome>::empty());
    while i < summaries.len()
        invariant
            i <= summaries.len(),
            summaries.deep_view() == all,
            totals_fit(all),
            successes == success_count(all.take(i as int)),
            successes <= i,
            lines == totals(all.take(i as int)).lines,
            words == totals(all.take(i as int)).words,
            chars == totals(all.take(i as int)).chars,
            bytes == totals(all.take(i as int)).bytes,
            max_len == padding(all.take(i as int)),
        decreases summaries.len() - i,
    {
        proof {
            assert(all.take(i + 1) =~= all.take(i as int).push(all[i as int]));
            assert(all[i as int] == summaries[i as int]@);
            lemma_totals_of_prefix(all, i + 1);
            lemma_totals_push(all.take(i as int), all[i as int]);
            lemma_padding_push(all.take(i as int), all[i as int]);
        }
        match &summaries[i] {
            WCResult::FileStats(summary) => {
                successes = successes + 1;
                lines = lines + summary.lines;
                words = words + summary.words;
                chars = chars + summary.chars;
                bytes = bytes + summary.bytes;
                max_len = widened(max_len, summary);
            },
            WCResult::ErrMsg(_) => {},
        }
        i = i + 1;
    }
    assert(all.take(i as int) =~= all);
    if successes > 1 {
        let total = FileSummary { lines, words, chars, bytes, label: "total".to_owned() };
        proof {
            reveal_strlit("total");
            assert(total.label@ =~= total_label());
            lemma_totals_push(all, Outcome::Success(total@));
            lemma_padding_push(all, Outcome::Success(total@));
        }
        max_len = widened(max_len, &total);
        summaries.push(WCResult::FileStats(total));
        assert(summaries.deep_view() =~= all.push(Outcome::Success(totals(all))));
    }
    max_len
}

/// The text of one number column of a line.
fn column_text(shown: bool, count: usize, padding: usize) -> (text: String)
    ensures
        text@ == column(shown, count as nat, padding as nat),
{
    if shown {
        proof {
            reveal_strlit(" ");
        }
        let text = right_justify(count, padding).concat(" ");
        assert(text@ =~= column(shown, count as nat, padding as nat));
        text
    } else {
        String::new()
    }
}

/// Format a `FileSummary` struct to look like the output of the classic wc
/// command.
///
/// This means the following:
/// * Each count that `args` asks for is written in a column of `padding`
/// characters, in the order lines, words, characters, bytes.
/// * Right justify the numbers.
/// * Then follow each value by one space.
/// * The label comes last, as it is.
///
/// A count that `args` does not ask for leaves no trace in the line, and
/// a number that is longer than `padding` is written in full.
pub fn format_summary(f: &FileSummary, padding: usize, args: &Cli) -> (line: String)
    ensures
        line@ == summary_line(f@, padding as nat, args@),
{
    let lines_count = column_text(args.lines, f.lines, padding);
    let words_count = column_text(args.words, f.words, padding);
    let chars_count = column_text(args.chars, f.chars, padding);
    let bytes_count = column_text(args.bytes, f.bytes, padding);
    lines_count.concat(words_count.as_str()).concat(chars_count.as_str()).concat(
        bytes_count.as_str(),
    ).concat(f.label.as_str())
}

/// Writes the line of every one of `summaries`, in their order: counts in
/// columns of `max_len` characters for the standard output, an error
/// message as it is for the standard error.
pub fn render(summaries: &Vec<WCResult>, max_len: usize, args: &Cli) -> (lines: Vec<OutputLine>)
    ensures
        lines.len() == summaries.len(),
        lines.deep_view() == rendered_all(summaries.deep_view(), max_len as nat, args@),
{
    let mut lines: Vec<OutputLine> = Vec::new();
    let mut i: usize = 0;
    while i < summaries.len()
        invariant
            i <= summaries.len(),
            lines.len() == i,
            forall|k: int|
                0 <= k < i ==> #[trigger] lines.deep_view()[k] == rendered(
                    summaries.deep_view()[k],
                    max_len as nat,
                    args@,
                ),
        decreases summaries.len() - i,
    {
        let line = match &summaries[i] {
            WCResult::FileStats(s) => OutputLine::Stdout(format_summary(s, max_len, args)),
            WCResult::ErrMsg(e) => OutputLine::Stderr(e.clone()),
        };
        let ghost before = lines.deep_view();
        lines.push(line);
        assert(lines.deep_view() =~= before.push(line@));
        i = i + 1;
    }
    assert(lines.deep_view() =~= rendered_all(summaries.deep_view(), max_len as nat, args@));
    lines
}

/// What is reported for `outcomes`: the lines of their report, or nothing
/// at all when their totals do not fit in a machine word.
pub open spec fn printed_for(outcomes: Seq<Outcome>, columns: Columns) -> Option<Seq<Output>> {
    if totals_fit(outcomes) {
        Some(report(outcomes, columns))
    } else {
        None
    }
}

/// Reports on `summaries`: adds the totals if more than one file was
/// counted, and writes the line of every row, in order and in columns as
/// wide as the longest number of all.
///
/// The result is `None` when the totals do not fit in a `usize`, and only
/// then.
pub fn report_all(summaries: Vec<WCResult>, args: &Cli) -> (printed: Option<Vec<OutputLine>>)
    ensures
        printed.deep_view() == printed_for(summaries.deep_view(), args@),
{
    let mut summaries = summaries;
    if !can_total(&summaries) {
        return None;
    }
    let max_len = get_totals(&mut summaries);
    Some(render(&summaries, max_len, args))
}

/// Count words, lines, and bytes in the given files.
///
/// Every file that `args` names is fetched with `fetch` and summarized, a
/// file that cannot be had as an error message; then the summaries are
/// reported, in the order of the files and the totals last. Without a list
/// of files the report is empty.
///
/// The result is `None` when the totals do not fit in a `usize`, and only
/// then.
pub fn wc<F: Fn(&String) -> Result<String, String>>(args: Cli, fetch: F) -> (printed: Option<
    Vec<OutputLine>,
>)
    requires
        args.files matches Some(file_names) ==> forall|i: int|
            0 <= i < file_names.len() ==> call_requires(fetch, (&file_names[i],)),
    ensures
        match args.files {
            None => printed.deep_view() == Some(Seq::<Output>::empty()),
            Some(file_names) => exists|outcomes: Seq<Outcome>|
                #![trigger summarizes(fetch, file_names@, outcomes)]
                summarizes(fetch, file_names@, outcomes) && printed.deep_view() == printed_for(
                    outcomes,
                    args@,
                ),
        },
{
    if let Some(file_names) = &args.files {
        let summaries = summarize_files(file_names, fetch);
        assert(summarizes(fetch, file_names@, summaries.deep_view()));
        report_all(summaries, &args)
    } else {
        let lines: Vec<OutputLine> = Vec::new();
        assert(lines.deep_view() =~= Seq::<Output>::empty());
        Some(lines)
    }
}

} // verus!
