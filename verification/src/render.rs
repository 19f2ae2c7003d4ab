//! Textual summaries of a job's state.
//!
//! A job that is still running is summarised as `Running...`; a finished one
//! as `Exit code: ` followed by the decimal status. The decimal writer is
//! verified against the usual recursive digit expansion.

use vstd::prelude::*;
use vstd::string::StringExecFns;

verus! {

/// The decimal digit character for `d`.
pub open spec fn digit_char(d: int) -> char {
    if d == 0 {
        '0'
    } else if d == 1 {
        '1'
    } else if d == 2 {
        '2'
    } else if d == 3 {
        '3'
    } else if d == 4 {
        '4'
    } else if d == 5 {
        '5'
    } else if d == 6 {
        '6'
    } else if d == 7 {
        '7'
    } else if d == 8 {
        '8'
    } else {
        '9'
    }
}

/// The decimal digits of a non-negative number, most significant first.
pub open spec fn nat_chars(n: int) -> Seq<char>
    decreases n,
{
    if n < 10 {
        seq![digit_char(n)]
    } else {
        nat_chars(n / 10).push(digit_char(n % 10))
    }
}

/// The decimal rendering of an integer, with a leading minus sign when it is
/// negative.
pub open spec fn int_chars(n: int) -> Seq<char> {
    if n < 0 {
        seq!['-'] + nat_chars(-n)
    } else {
        nat_chars(n)
    }
}

/// The summary text for a status: `Running...` while none is recorded, the
/// decimal exit code once one is.
pub open spec fn summary_chars(status: Option<i32>) -> Seq<char> {
    match status {
        Option::None => "Running..."@,
        Option::Some(code) => "Exit code: "@ + int_chars(code as int),
    }
}

fn push_digit(s: &mut String, d: u64)
    requires
        d < 10,
    ensures
        final(s)@ == old(s)@.push(digit_char(d as int)),
{
    match d {
        0 => s.append("0"),
        1 => s.append("1"),
        2 => s.append("2"),
        3 => s.append("3"),
        4 => s.append("4"),
        5 => s.append("5"),
        6 => s.append("6"),
        7 => s.append("7"),
        8 => s.append("8"),
        _ => s.append("9"),
    }
    proof {
        reveal_strlit("0");
        reveal_strlit("1");
        reveal_strlit("2");
        reveal_strlit("3");
        reveal_strlit("4");
        reveal_strlit("5");
        reveal_strlit("6");
        reveal_strlit("7");
        reveal_strlit("8");
        reveal_strlit("9");
        assert(final(s)@ =~= old(s)@.push(digit_char(d as int)));
    }
}

fn push_nat(s: &mut String, n: u64)
    ensures
        final(s)@ == old(s)@ + nat_chars(n as int),
    decreases n,
{
    if n >= 10 {
        push_nat(s, n / 10);
    }
    push_digit(s, n % 10);
    proof {
        assert(final(s)@ =~= old(s)@ + nat_chars(n as int));
    }
}

/// Appends the decimal rendering of `n`.
fn push_int(s: &mut String, n: i64)
    ensures
        final(s)@ == old(s)@ + int_chars(n as int),
{
    if n < 0 {
        s.append("-");
        let wide: i128 = n as i128;
        let mag: u64 = (-wide) as u64;
        push_nat(s, mag);
        proof {
            reveal_strlit("-");
            assert(("-")@ =~= seq!['-']);
            assert(final(s)@ =~= old(s)@ + int_chars(n as int));
        }
    } else {
        push_nat(s, n as u64);
    }
}

/// The decimal rendering of an integer as a fresh string.
pub fn int_string(n: i64) -> (r: String)
    ensures
        r@ == int_chars(n as int),
{
    let mut s = String::new();
    push_int(&mut s, n);
    proof {
        assert(Seq::<char>::empty() + int_chars(n as int) =~= int_chars(n as int));
    }
    s
}

/// Renders the summary for a status: `Running...` while none is recorded,
/// `Exit code: ` and the decimal code once one is.
pub fn status_summary(status: &Option<i32>) -> (r: String)
    ensures
        r@ == summary_chars(*status),
{
    match status {
        Option::None => String::from_str("Running..."),
        Option::Some(code) => {
            let mut s = String::from_str("Exit code: ");
            push_int(&mut s, *code as i64);
            s
        },
    }
}

} // verus!
