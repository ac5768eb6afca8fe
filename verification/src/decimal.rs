//! Decimal rendering of counts, and right-justification in a column.

use vstd::prelude::*;

verus! {

/// Number of digits that `n` takes when written in decimal.
pub open spec fn digit_count(n: nat) -> nat
    decreases n,
{
    if n < 10 {
        1
    } else {
        1 + digit_count(n / 10)
    }
}

/// The character that stands for the decimal digit `d`.
pub open spec fn digit(d: nat) -> char
    recommends
        d < 10,
{
    if d == 0 {
        '0'
    } else if d == 1 {
        '1'
    } else if d == 2 {
        '2'
    } else if d == 3 {
        '3'
    } else if d == 4 {
        '4'
    } else if d == 5 {
        '5'
    } else if d == 6 {
        '6'
    } else if d == 7 {
        '7'
    } else if d == 8 {
        '8'
    } else {
        '9'
    }
}

/// `n` written in decimal, most significant digit first, without leading
/// zeros (zero itself is the single digit `0`).
pub open spec fn decimal(n: nat) -> Seq<char>
    decreases n,
{
    if n < 10 {
        seq![digit(n)]
    } else {
        decimal(n / 10).push(digit(n % 10))
    }
}

/// A run of `k` spaces.
pub open spec fn spaces(k: nat) -> Seq<char> {
    Seq::new(k, |i: int| ' ')
}

/// `n` in decimal, moved to the right edge of a column of `width`
/// characters by spaces on its left. A number with more than `width` digits
/// is written in full.
pub open spec fn right_justified(n: nat, width: nat) -> Seq<char> {
    let fill = if digit_count(n) < width {
        (width - digit_count(n)) as nat
    } else {
        0
    };
    spaces(fill) + decimal(n)
}

/// The decimal rendering of `n` has `digit_count(n)` characters.
pub proof fn lemma_decimal_len(n: nat)
    ensures
        decimal(n).len() == digit_count(n),
    decreases n,
{
    if n >= 10 {
        lemma_decimal_len(n / 10);
    }
}

/// A larger number never has fewer digits.
pub proof fn lemma_digit_count_monotonic(a: nat, b: nat)
    requires
        a <= b,
    ensures
        digit_count(a) <= digit_count(b),
    decreases b,
{
    if a >= 10 {
        lemma_digit_count_monotonic(a / 10, b / 10);
    }
}

/// A number has at least one digit, and no more digits than its value
/// once it is positive.
pub proof fn lemma_digit_count_bounds(n: nat)
    ensures
        1 <= digit_count(n),
        n >= 1 ==> digit_count(n) <= n,
    decreases n,
{
    if n >= 10 {
        lemma_digit_count_bounds(n / 10);
    }
}

/// A right-justified number fills the column exactly, unless it is wider
/// than the column.
pub proof fn lemma_right_justified_len(n: nat, width: nat)
    ensures
        right_justified(n, width).len() == if digit_count(n) < width {
            width
        } else {
            digit_count(n)
        },
{
    lemma_decimal_len(n);
}

/// Counts the decimal digits of `n`.
pub fn count_digits(n: usize) -> (len: usize)
    ensures
        len == digit_count(n as nat),
    decreases n,
{
    if n < 10 {
        1
    } else {
        proof {
            lemma_digit_count_bounds((n / 10) as nat);
        }
        1 + count_digits(n / 10)
    }
}

/// The text of one decimal digit.
fn digit_text(d: usize) -> (text: &'static str)
    requires
        d < 10,
    ensures
        text@ == seq![digit(d as nat)],
{
    proof {
        reveal_strlit("0");
        reveal_strlit("1");
        reveal_strlit("2");
        reveal_strlit("3");
        reveal_strlit("4");
        reveal_strlit("5");
        reveal_strlit("6");
        reveal_strlit("7");
        reveal_strlit("8");
        reveal_strlit("9");
    }
    let text = if d == 0 {
        "0"
    } else if d == 1 {
        "1"
    } else if d == 2 {
        "2"
    } else if d == 3 {
        "3"
    } else if d == 4 {
        "4"
    } else if d == 5 {
        "5"
    } else if d == 6 {
        "6"
    } else if d == 7 {
        "7"
    } else if d == 8 {
        "8"
    } else {
        "9"
    };
    assert(text@ =~= seq![digit(d as nat)]);
    text
}

/// Writes `n` in decimal.
pub fn to_decimal(n: usize) -> (text: String)
    ensures
        text@ == decimal(n as nat),
    decreases n,
{
    if n < 10 {
        digit_text(n).to_owned()
    } else {
        to_decimal(n / 10).concat(digit_text(n % 10))
    }
}

/// Writes `n` in decimal at the right edge of a column of `width`
/// characters.
pub fn right_justify(n: usize, width: usize) -> (text: String)
    ensures
        text@ == right_justified(n as nat, width as nat),
{
    let len = count_digits(n);
    let mut text = String::new();
    let mut filled: usize = len;
    while filled < width
        invariant
            len == digit_count(n as nat),
            len <= filled,
            filled <= width || filled == len,
            text@ == spaces((filled - len) as nat),
        decreases width - filled,
    {
        proof {
            reveal_strlit(" ");
        }
        text.append(" ");
        filled = filled + 1;
        assert(text@ =~= spaces((filled - len) as nat));
    }
    let digits = to_decimal(n);
    text.append(digits.as_str());
    text
}

} // verus!
