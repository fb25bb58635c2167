//! The timestamp the servers' file logs are written with:
//! `day-month-year hour:minute:second.nanosecond`.

use vstd::prelude::*;
use crate::text::{dec, push_dec, push_str, string_of};

verus! {

/// Decimal text of an integer, with a leading `-` when it is negative (as
/// `i32`'s `Display` prints it).
pub open spec fn int_text(i: int) -> Seq<char> {
    if i < 0 {
        "-"@ + dec((-i) as nat)
    } else {
        dec(i as nat)
    }
}

/// Decimal text of `n` padded with zeros to two characters (`{:02}`).
pub open spec fn two_digits(n: nat) -> Seq<char> {
    if n < 10 {
        "0"@ + dec(n)
    } else {
        dec(n)
    }
}

/// The log timestamp of a local date and time.
pub open spec fn log_time_text(
    year: i32,
    month: u32,
    day: u32,
    hour: u32,
    minute: u32,
    second: u32,
    nano: u32,
) -> Seq<char> {
    dec(day as nat) + "-"@ + dec(month as nat) + "-"@ + int_text(year as int) + " "@ + two_digits(
        hour as nat,
    ) + ":"@ + two_digits(minute as nat) + ":"@ + two_digits(second as nat) + "."@ + dec(
        nano as nat,
    )
}

fn push_two_digits(out: &mut Vec<char>, n: u32)
    ensures
        final(out)@ == old(out)@ + two_digits(n as nat),
{
    if n < 10 {
        push_str(out, "0");
    }
    push_dec(out, n as u64);
}

/// Formats the log timestamp of a local date and time.
pub fn format_log_time(
    year: i32,
    month: u32,
    day: u32,
    hour: u32,
    minute: u32,
    second: u32,
    nano: u32,
) -> (r: String)
    ensures
        r@ == log_time_text(year, month, day, hour, minute, second, nano),
{
    let mut m: Vec<char> = Vec::new();
    push_dec(&mut m, day as u64);
    push_str(&mut m, "-");
    push_dec(&mut m, month as u64);
    push_str(&mut m, "-");
    if year < 0 {
        push_str(&mut m, "-");
        let y: i64 = year as i64;
        push_dec(&mut m, (-y) as u64);
    } else {
        push_dec(&mut m, year as u64);
    }
    push_str(&mut m, " ");
    push_two_digits(&mut m, hour);
    push_str(&mut m, ":");
    push_two_digits(&mut m, minute);
    push_str(&mut m, ":");
    push_two_digits(&mut m, second);
    push_str(&mut m, ".");
    push_dec(&mut m, nano as u64);
    string_of(m.as_slice())
}

} // verus!
