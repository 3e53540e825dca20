//! Decimal rendering of integers and the shared error-message format
//! `[line <N>] Error <where>: <message>`.
use vstd::prelude::*;
use vstd::string::*;

verus! {

/// The decimal digit character for `d` (meaningful for `0 <= d <= 9`).
pub open spec fn digit_char(d: int) -> char {
    if d == 0 {
        '0'
    } else if d == 1 {
        '1'
    } else if d == 2 {
        '2'
    } else if d == 3 {
        '3'
    } else if d == 4 {
        '4'
    } else if d == 5 {
        '5'
    } else if d == 6 {
        '6'
    } else if d == 7 {
        '7'
    } else if d == 8 {
        '8'
    } else {
        '9'
    }
}

/// The decimal digits of a non-negative integer, most significant first.
pub open spec fn dec_digits(n: int) -> Seq<char>
    recommends
        n >= 0,
    decreases n,
{
    if n < 10 {
        seq![digit_char(n)]
    } else {
        dec_digits(n / 10) + seq![digit_char(n % 10)]
    }
}

/// The digits of a possibly negative integer, with a leading minus sign.
pub open spec fn int_decimal(n: int) -> Seq<char> {
    if n < 0 {
        "-"@ + dec_digits(-n)
    } else {
        dec_digits(n)
    }
}

fn digit_str(d: u64) -> (r: &'static str)
    requires
        d < 10,
    ensures
        r@ == seq![digit_char(d as int)],
{
    let r: &'static str = if d == 0 {
        "0"
    } else if d == 1 {
        "1"
    } else if d == 2 {
        "2"
    } else if d == 3 {
        "3"
    } else if d == 4 {
        "4"
    } else if d == 5 {
        "5"
    } else if d == 6 {
        "6"
    } else if d == 7 {
        "7"
    } else if d == 8 {
        "8"
    } else {
        "9"
    };
    proof {
        reveal_strlit("0");
        reveal_strlit("1");
        reveal_strlit("2");
        reveal_strlit("3");
        reveal_strlit("4");
        reveal_strlit("5");
        reveal_strlit("6");
        reveal_strlit("7");
        reveal_strlit("8");
        reveal_strlit("9");
        assert(r@ =~= seq![digit_char(d as int)]);
    }
    r
}

/// Renders an unsigned integer in decimal.
pub fn decimal_string(n: u64) -> (r: String)
    ensures
        r@ == dec_digits(n as int),
    decreases n,
{
    if n < 10 {
        digit_str(n).to_owned()
    } else {
        let mut s = decimal_string(n / 10);
        s.append(digit_str(n % 10));
        s
    }
}

/// Renders a signed integer in decimal.
pub fn i64_decimal_string(n: i64) -> (r: String)
    ensures
        r@ == int_decimal(n as int),
{
    if n >= 0 {
        decimal_string(n as u64)
    } else {
        let mut s = String::from_str("-");
        let mag: u64 = (-(n as i128)) as u64;
        s.append(decimal_string(mag).as_str());
        s
    }
}

/// The text of a diagnostic: `[line <line>] Error <at>: <message>`.
pub open spec fn report_text(line: int, at: Seq<char>, message: Seq<char>) -> Seq<char> {
    "[line "@ + dec_digits(line) + "] Error "@ + at + ": "@ + message
}

/// Formats a diagnostic that points at a lexeme (`at`) on a source line.
pub fn report(line: usize, at: &str, message: &str) -> (r: String)
    ensures
        r@ == report_text(line as int, at@, message@),
{
    let mut s = String::from_str("[line ");
    s.append(decimal_string(line as u64).as_str());
    s.append("] Error ");
    s.append(at);
    s.append(": ");
    s.append(message);
    s
}

/// Formats a diagnostic that names no lexeme, only a source line.
pub fn error(line: usize, message: &str) -> (r: String)
    ensures
        r@ == report_text(line as int, ""@, message@),
{
    report(line, "", message)
}

} // verus!
