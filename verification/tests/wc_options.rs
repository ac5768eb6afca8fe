//! The tool with each of its options.

use rwc::cli::Cli;
use rwc::wc::{wc, OutputLine};

/// A text with the given counts: `words` words on `lines` lines, in
/// `chars` characters that take `bytes` bytes. Every line ends with a line
/// feed.
fn text_with(lines: usize, words: usize, chars: usize, bytes: usize) -> String {
    let spaces = words.saturating_sub(lines);
    let letters = chars - lines - spaces;
    let mut wide = bytes - chars;
    assert!(letters >= words && wide <= letters);
    let mut line_feeds = lines;
    let mut text = String::with_capacity(bytes);
    for word in 0..words {
        let len = if word == 0 { letters - (words - 1) } else { 1 };
        for _ in 0..len {
            if wide > 0 {
                text.push('é');
                wide -= 1;
            } else {
                text.push('a');
            }
        }
        if word < spaces {
            text.push(' ');
        } else {
            text.push('\n');
            line_feeds -= 1;
        }
    }
    for _ in 0..line_feeds {
        text.push('\n');
    }
    text
}

/// The files that the tests read: each path gives a text with the counts
/// of that file, and any other path is missing.
fn read_to_string(path: &String) -> Result<String, String> {
    match path.as_str() {
        "tests/test_files/trees.txt" => Ok(text_with(21, 83, 415, 415)),
        "tests/test_files/fire_and_ice.txt" => Ok(text_with(13, 56, 272, 272)),
        "tests/test_files/so_tired_blues.txt" => Ok(text_with(9, 26, 131, 131)),
        "tests/test_files/dracula.txt" => Ok(text_with(15857, 164382, 881118, 881220)),
        "tests/test_files/frankenstein.txt" => Ok(text_with(7741, 78122, 446616, 448817)),
        "tests/test_files/moby_dick.txt" => Ok(text_with(22314, 215864, 1276231, 1276231)),
        "tests/test_files/bummer_dude.txt" => Ok(text_with(100, 2, 110, 110)),
        "tests/test_files/one_char.txt" => Ok(text_with(1, 1, 2, 2)),
        "tests/test_files/jack.txt" => Ok(text_with(24, 240, 1056, 1056)),
        _ => Err("No such file or directory (os error 2)".to_owned()),
    }
}

/// Runs the tool as the command line `wc` followed by `arguments` would,
/// and returns what it writes to the standard output and to the standard
/// error, every line with a line feed after it.
fn run(arguments: &[&str]) -> (String, String) {
    let mut args = Cli {
        lines: false,
        bytes: false,
        chars: false,
        words: false,
        max_line_length: None,
        files: None,
    };
    let mut files = Vec::new();
    for argument in arguments {
        match argument.strip_prefix('-') {
            Some(flags) => {
                for flag in flags.chars() {
                    match flag {
                        'l' => args.lines = true,
                        'c' => args.bytes = true,
                        'm' => args.chars = true,
                        'w' => args.words = true,
                        _ => panic!("unknown option -{}", flag),
                    }
                }
            }
            None => files.push(argument.to_string()),
        }
    }
    args.files = Some(files);
    args.select_default_columns();
    let mut stdout = String::new();
    let mut stderr = String::new();
    for line in wc(args, read_to_string).expect("the totals fit in a usize") {
        match line {
            OutputLine::Stdout(text) => {
                stdout.push_str(&text);
                stdout.push('\n');
            }
            OutputLine::Stderr(text) => {
                stderr.push_str(&text);
                stderr.push('\n');
            }
        }
    }
    (stdout, stderr)
}

// Without options: lines, words and bytes.

/// `wc tests/test_files/trees.txt` prints:
/// ```text
///  21  83 415 tests/test_files/trees.txt
/// ```
#[test]
fn wc_no_args_test_read_trees() {
    let (stdout, _) = run(&["tests/test_files/trees.txt"]);
    assert_eq!(stdout, " 21  83 415 tests/test_files/trees.txt\n");
}

/// `wc tests/test_files/fire_and_ice.txt` prints, among others:
/// ```text
///  13  56 272 tests/test_files/fire_and_ice.txt
/// ```
#[test]
fn wc_no_args_read_fire() {
    let (stdout, _) = run(&["tests/test_files/fire_and_ice.txt"]);
    assert!(stdout.contains(" 13  56 272 tests/test_files/fire_and_ice.txt"));
}

/// `wc tests/test_files/so_tired_blues.txt` prints:
/// ```text
///   9  26 131 tests/test_files/so_tired_blues.txt
/// ```
#[test]
fn wc_no_args_read_so_tired() {
    let (stdout, _) = run(&["tests/test_files/so_tired_blues.txt"]);
    assert_eq!(stdout, "  9  26 131 tests/test_files/so_tired_blues.txt\n");
}

/// `wc tests/test_files/so_tired_blues.txt tests/test_files/fire_and_ice.txt` prints:
/// ```text
///   9  26 131 tests/test_files/so_tired_blues.txt
///  13  56 272 tests/test_files/fire_and_ice.txt
///  22  82 403 total
/// ```
#[test]
fn wc_no_args_read_so_tired_and_fire() {
    let (stdout, _) = run(&[
        "tests/test_files/so_tired_blues.txt",
        "tests/test_files/fire_and_ice.txt",
    ]);
    let expected = [
        "  9  26 131 tests/test_files/so_tired_blues.txt\n",
        " 13  56 272 tests/test_files/fire_and_ice.txt\n",
        " 22  82 403 total\n",
    ]
    .concat();
    assert_eq!(stdout, expected);
}

/// `wc tests/test_files/dracula.txt` prints:
/// ```text
///  15857 164382 881220 tests/test_files/dracula.txt
/// ```
#[test]
fn wc_no_args_read_dracula() {
    let (stdout, _) = run(&["tests/test_files/dracula.txt"]);
    assert_eq!(stdout, " 15857 164382 881220 tests/test_files/dracula.txt\n");
}

/// `wc tests/test_files/frankenstein.txt` prints:
/// ```text
///   7741  78122 448817 tests/test_files/frankenstein.txt
/// ```
#[test]
fn wc_no_args_read_frank() {
    let (stdout, _) = run(&["tests/test_files/frankenstein.txt"]);
    assert_eq!(stdout, "  7741  78122 448817 tests/test_files/frankenstein.txt\n");
}

/// `wc tests/test_files/moby_dick.txt` prints:
/// ```text
///   22314  215864 1276231 tests/test_files/moby_dick.txt
/// ```
#[test]
fn wc_no_args_read_moby() {
    let (stdout, _) = run(&["tests/test_files/moby_dick.txt"]);
    assert_eq!(stdout, "  22314  215864 1276231 tests/test_files/moby_dick.txt\n");
}

/// `wc tests/test_files/moby_dick.txt tests/test_files/frankenstein.txt
/// tests/test_files/dracula.txt` prints:
/// ```text
///   22314  215864 1276231 tests/test_files/moby_dick.txt
///    7741   78122  448817 tests/test_files/frankenstein.txt
///   15857  164382  881220 tests/test_files/dracula.txt
///   45912  458368 2606268 total
/// ```
#[test]
fn wc_no_args_read_3_big_files() {
    let (stdout, _) = run(&[
        "tests/test_files/moby_dick.txt",
        "tests/test_files/frankenstein.txt",
        "tests/test_files/dracula.txt",
    ]);
    let expected = [
        "  22314  215864 1276231 tests/test_files/moby_dick.txt\n",
        "   7741   78122  448817 tests/test_files/frankenstein.txt\n",
        "  15857  164382  881220 tests/test_files/dracula.txt\n",
        "  45912  458368 2606268 total\n",
    ]
    .concat();
    assert_eq!(stdout, expected);
}

// Lines only.

/// `wc -l tests/test_files/trees.txt` prints:
/// ```text
///  21 tests/test_files/trees.txt
/// ```
#[test]
fn wc_lines_test_read_lines_trees() {
    let (stdout, _) = run(&["-l", "tests/test_files/trees.txt"]);
    assert_eq!(stdout, " 21 tests/test_files/trees.txt\n");
}

/// `wc -l tests/test_files/so_tired_blues.txt tests/test_files/fire_and_ice.txt` prints:
/// ```text
///   9 tests/test_files/so_tired_blues.txt
///  13 tests/test_files/fire_and_ice.txt
///  22 total
/// ```
#[test]
fn wc_lines_read_so_tired_and_fire_lines() {
    let (stdout, _) = run(&[
        "-l",
        "tests/test_files/so_tired_blues.txt",
        "tests/test_files/fire_and_ice.txt",
    ]);
    let expected = [
        "  9 tests/test_files/so_tired_blues.txt\n",
        " 13 tests/test_files/fire_and_ice.txt\n",
        " 22 total\n",
    ]
    .concat();
    assert_eq!(stdout, expected);
}

// Words only.

/// `wc -w tests/test_files/trees.txt` prints:
/// ```text
///  83 tests/test_files/trees.txt
/// ```
#[test]
fn wc_words_test_read_words_trees() {
    let (stdout, _) = run(&["-w", "tests/test_files/trees.txt"]);
    assert_eq!(stdout, " 83 tests/test_files/trees.txt\n");
}

/// `wc tests/test_files/moby_dick.txt tests/test_files/one_char.txt -w` prints:
/// ```text
///  215864 tests/test_files/moby_dick.txt
///       1 tests/test_files/one_char.txt
///  215865 total
/// ```
#[test]
fn wc_words_read_moby_and_one_char() {
    let (stdout, _) = run(&[
        "tests/test_files/moby_dick.txt",
        "tests/test_files/one_char.txt",
        "-w",
    ]);
    let expected = [
        " 215864 tests/test_files/moby_dick.txt\n",
        "      1 tests/test_files/one_char.txt\n",
        " 215865 total\n",
    ]
    .concat();
    assert_eq!(stdout, expected);
}

/// `wc tests/test_files/moby_dick.txt tests/test_files/jack.txt -w` prints:
/// ```text
///  215864 tests/test_files/moby_dick.txt
///     240 tests/test_files/jack.txt
///  216104 total
/// ```
#[test]
fn wc_words_read_moby_and_jack() {
    let (stdout, _) = run(&["tests/test_files/moby_dick.txt", "tests/test_files/jack.txt", "-w"]);
    let expected = [
        " 215864 tests/test_files/moby_dick.txt\n",
        "    240 tests/test_files/jack.txt\n",
        " 216104 total\n",
    ]
    .concat();
    assert_eq!(stdout, expected);
}

/// `wc tests/test_files/moby_dick.txt tests/test_files/bummer_dude.txt -w` prints:
/// ```text
///  215864 tests/test_files/moby_dick.txt
///       2 tests/test_files/bummer_dude.txt
///  215866 total
/// ```
#[test]
fn wc_words_read_moby_and_bummer_words() {
    let (stdout, _) = run(&[
        "tests/test_files/moby_dick.txt",
        "tests/test_files/bummer_dude.txt",
        "-w",
    ]);
    let expected = [
        " 215864 tests/test_files/moby_dick.txt\n",
        "      2 tests/test_files/bummer_dude.txt\n",
        " 215866 total\n",
    ]
    .concat();
    assert_eq!(stdout, expected);
}

// Characters only.

/// `wc tests/test_files/frankenstein.txt -m` prints:
/// ```text
/// 446616 tests/test_files/frankenstein.txt
/// ```
#[test]
fn wc_chars_count_chars_frank() {
    let (stdout, _) = run(&["tests/test_files/frankenstein.txt", "-m"]);
    assert_eq!(stdout, "446616 tests/test_files/frankenstein.txt\n");
}

/// `wc tests/test_files/frankenstein.txt tests/test_files/dracula.txt -m` prints:
/// ```text
///  446616 tests/test_files/frankenstein.txt
///  881118 tests/test_files/dracula.txt
/// 1327734 total
/// ```
#[test]
fn wc_chars_count_chars_frank_n_drac() {
    let (stdout, _) = run(&[
        "tests/test_files/frankenstein.txt",
        "tests/test_files/dracula.txt",
        "-m",
    ]);
    let expected = [
        " 446616 tests/test_files/frankenstein.txt\n",
        " 881118 tests/test_files/dracula.txt\n",
        "1327734 total\n",
    ]
    .concat();
    assert_eq!(stdout, expected);
}

// Bytes only.

/// `wc -c tests/test_files/trees.txt` prints:
/// ```text
/// 415 tests/test_files/trees.txt
/// ```
#[test]
fn wc_bytes_test_read_bytes_trees() {
    let (stdout, _) = run(&["-c", "tests/test_files/trees.txt"]);
    assert_eq!(stdout, "415 tests/test_files/trees.txt\n");
}

/// `wc tests/test_files/moby_dick.txt tests/test_files/bummer_dude.txt -c` prints:
/// ```text
/// 1276231 tests/test_files/moby_dick.txt
///     110 tests/test_files/bummer_dude.txt
/// 1276341 total
/// ```
#[test]
fn wc_bytes_read_moby_and_bummer_bytes() {
    let (stdout, _) = run(&[
        "tests/test_files/moby_dick.txt",
        "tests/test_files/bummer_dude.txt",
        "-c",
    ]);
    let expected = [
        "1276231 tests/test_files/moby_dick.txt\n",
        "    110 tests/test_files/bummer_dude.txt\n",
        "1276341 total\n",
    ]
    .concat();
    assert_eq!(stdout, expected);
}

// Characters and bytes together.

/// `wc tests/test_files/so_tired_blues.txt -mc` prints:
/// ```text
/// 131 131 tests/test_files/so_tired_blues.txt
/// ```
#[test]
fn wc_combo_chars_and_byte_count_same() {
    let (stdout, _) = run(&["tests/test_files/so_tired_blues.txt", "-mc"]);
    assert_eq!(stdout, "131 131 tests/test_files/so_tired_blues.txt\n");
}

/// `wc tests/test_files/dracula.txt -mc` prints:
/// ```text
/// 881118 881220 tests/test_files/dracula.txt
/// ```
#[test]
fn wc_combo_chars_and_byte_count_diff() {
    let (stdout, _) = run(&["tests/test_files/dracula.txt", "-mc"]);
    assert_eq!(stdout, "881118 881220 tests/test_files/dracula.txt\n");
}

// A file that is missing.

/// `wc tests/test_files/does_not_exist.txt` prints to the standard error:
/// ```text
/// No such file or directory (os error 2): tests/test_files/does_not_exist.txt
/// ```
#[test]
fn wc_error_read_err() {
    let (_, stderr) = run(&["tests/test_files/does_not_exist.txt"]);
    assert_eq!(
        stderr,
        "No such file or directory (os error 2): tests/test_files/does_not_exist.txt\n"
    );
}
