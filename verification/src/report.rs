//! The lines a run writes to standard output, and the decimal numbers in
//! them.

use vstd::prelude::*;
use vstd::string::StringExecFns;
use crate::controller::HOLD_SECONDS;
use crate::size::{decimal_digits, digit_char};

verus! {

/// The line written before a chunk is claimed, when `allocated` bytes are
/// held.
pub open spec fn progress_text(allocated: nat) -> Seq<char> {
    "Allocating "@ + decimal_digits(allocated) + " bytes of memory"@
}

/// The line written when all `allocated` bytes are held and the wait
/// begins.
pub open spec fn holding_text(allocated: nat) -> Seq<char> {
    "Allocated "@ + decimal_digits(allocated) + " bytes of memory. Waiting for "@
        + decimal_digits(HOLD_SECONDS as nat) + " seconds before deallocating..."@
}

/// The line written when every chunk has been given back.
pub open spec fn released_text() -> Seq<char> {
    "Memory deallocated successfully"@
}

/// The one-character text of a digit.
pub fn digit_text(d: u64) -> (text: &'static str)
    requires
        d < 10,
    ensures
        text@ == seq![digit_char(d as nat)],
{
    proof {
        reveal_strlit("0");
        reveal_strlit("1");
        reveal_strlit("2");
        reveal_strlit("3");
        reveal_strlit("4");
        reveal_strlit("5");
        reveal_strlit("6");
        reveal_strlit("7");
        reveal_strlit("8");
        reveal_strlit("9");
    }
    let text = if d == 0 {
        "0"
    } else if d == 1 {
        "1"
    } else if d == 2 {
        "2"
    } else if d == 3 {
        "3"
    } else if d == 4 {
        "4"
    } else if d == 5 {
        "5"
    } else if d == 6 {
        "6"
    } else if d == 7 {
        "7"
    } else if d == 8 {
        "8"
    } else {
        "9"
    };
    assert(text@ =~= seq![digit_char(d as nat)]);
    text
}

/// `n` written in decimal: no sign, no leading zeros.
pub fn to_decimal(n: u64) -> (text: String)
    ensures
        text@ == decimal_digits(n as nat),
    decreases n,
{
    if n < 10 {
        String::from_str(digit_text(n))
    } else {
        let mut text = to_decimal(n / 10);
        text.append(digit_text(n % 10));
        assert(text@ =~= decimal_digits((n / 10) as nat).push(digit_char((n % 10) as nat)));
        text
    }
}

/// The line written before a chunk is claimed, when `allocated` bytes are
/// held.
pub fn progress_line(allocated: usize) -> (line: String)
    ensures
        line@ == progress_text(allocated as nat),
{
    let mut line = String::from_str("Allocating ");
    line.append(to_decimal(allocated as u64).as_str());
    line.append(" bytes of memory");
    line
}

/// The line written when all `allocated` bytes are held and the wait
/// begins.
pub fn holding_line(allocated: usize) -> (line: String)
    ensures
        line@ == holding_text(allocated as nat),
{
    let mut line = String::from_str("Allocated ");
    line.append(to_decimal(allocated as u64).as_str());
    line.append(" bytes of memory. Waiting for ");
    line.append(to_decimal(HOLD_SECONDS).as_str());
    line.append(" seconds before deallocating...");
    line
}

/// The line written when every chunk has been given back.
pub fn released_line() -> (line: &'static str)
    ensures
        line@ == released_text(),
{
    "Memory deallocated successfully"
}

} // verus!
