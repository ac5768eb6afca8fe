//! The options of a run, and the columns they select.

use vstd::prelude::*;

verus! {

/// Which of the four counts a report shows.
pub struct Columns {
    pub lines: bool,
    pub words: bool,
    pub chars: bool,
    pub bytes: bool,
}

/// The options of one run, as they were given on the command line.
#[derive(Debug)]
pub struct Cli {
    /// Print the newline count
    pub lines: bool,
    /// Print the byte counts
    pub bytes: bool,
    /// Print the character counts
    pub chars: bool,
    /// Print the word counts
    pub words: bool,
    /// Print the maximum display width
    pub max_line_length: Option<i32>,
    /// List of files to process
    pub files: Option<Vec<String>>,
}

impl View for Cli {
    type V = Columns;

    open spec fn view(&self) -> Columns {
        Columns { lines: self.lines, words: self.words, chars: self.chars, bytes: self.bytes }
    }
}

/// The columns that are shown when `asked` are the ones asked for: the
/// same ones, or lines, words and bytes when none was asked for.
pub open spec fn with_default(asked: Columns) -> Columns {
    if !asked.lines && !asked.words && !asked.chars && !asked.bytes {
        Columns { lines: true, words: true, chars: false, bytes: true }
    } else {
        asked
    }
}

impl Cli {
    /// Selects lines, words and bytes when no column was asked for, and
    /// leaves the options as they are otherwise.
    pub fn select_default_columns(&mut self)
        ensures
            final(self)@ == with_default(old(self)@),
            final(self).max_line_length == old(self).max_line_length,
            final(self).files == old(self).files,
    {
        if !self.lines && !self.bytes && !self.words && !self.chars {
            self.lines = true;
            self.bytes = true;
            self.words = true;
        }
    }
}

} // verus!
