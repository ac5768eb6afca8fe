//! Line, word, character and byte counts of texts, and their report in the
//! manner of the classic `wc`.
//!
//! The crate turns what was fetched for each named input into counts or an
//! error message, adds a totals row when more than one input was counted,
//! and writes every row as a line of right-justified columns. It reads no
//! file and prints nothing itself: the caller hands it a way to fetch an
//! input, and gets the lines back with the stream each of them is for.
//!
//! * [`lines`], [`words`] and [`bytes`] say what the lines, the words and
//!   the bytes of a text are, and count them.
//! * [`decimal`] writes a number in decimal and in a column.
//! * [`model`] says what the outcomes of a run, their totals, the width of
//!   the columns and the lines of the report are.
//! * [`wc`] holds the summaries, the totals and the report themselves.
//! * [`cli`] holds the options of a run.
//! * [`shared`] holds helpers that other tools share.
//!
//! Every function that runs has a contract over the definitions of these
//! modules, and the laws that hold between the definitions are proved next
//! to them.

pub mod bytes;
pub mod cli;
pub mod decimal;
pub mod lines;
pub mod model;
pub mod shared;
pub mod wc;
pub mod words;
