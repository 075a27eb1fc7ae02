//! Elapsed times as `HH:MM:SS`.
use vstd::prelude::*;
use std::time::Duration;
use crate::text::{decimal, push_char, push_decimal};

verus! {

/// Relies on std's `Duration::as_secs`, which vstd does not specify: nothing
/// is claimed of its result.
pub assume_specification[ core::time::Duration::as_secs ](d: &Duration) -> u64;

/// The decimal writing of `n`, padded with zeros on the left to two digits.
pub open spec fn two_digits(n: nat) -> Seq<char> {
    if n < 10 {
        seq!['0'] + decimal(n)
    } else {
        decimal(n)
    }
}

/// `secs` seconds written as hours, minutes and seconds, each of at least two
/// digits, separated by colons.
pub open spec fn clock_text(secs: nat) -> Seq<char> {
    two_digits(secs / 3600) + seq![':'] + two_digits((secs / 60) % 60) + seq![':'] + two_digits(
        secs % 60,
    )
}

fn push_two_digits(s: &mut String, n: u64)
    ensures
        final(s)@ == old(s)@ + two_digits(n as nat),
{
    let ghost start = s@;
    if n < 10 {
        push_char(s, '0');
        push_decimal(s, n);
        assert(final(s)@ =~= start + two_digits(n as nat));
    } else {
        push_decimal(s, n);
    }
}

/// `secs` seconds as `HH:MM:SS`.
pub fn clock_str(secs: u64) -> (s: String)
    ensures
        s@ == clock_text(secs as nat),
{
    let mut s = String::new();
    push_two_digits(&mut s, secs / 60 / 60);
    push_char(&mut s, ':');
    push_two_digits(&mut s, (secs / 60) % 60);
    push_char(&mut s, ':');
    push_two_digits(&mut s, secs % 60);
    assert(secs / 60 / 60 == secs / 3600) by (nonlinear_arith);
    assert(s@ =~= clock_text(secs as nat));
    s
}

/// The whole seconds of `dur` as `HH:MM:SS`.
pub fn elapsed_time_str(dur: &Duration) -> (s: String)
    ensures
        exists|secs: u64| s@ == clock_text(secs as nat),
{
    clock_str(dur.as_secs())
}

} // verus!
