//! Small presentation helpers that are still pure computation: rendering
//! a duration in words.

use vstd::prelude::*;
use vstd::string::StringExecFns;

verus! {

/// The decimal digit character for `d`.
pub open spec fn digit_seq(d: nat) -> Seq<char> {
    if d == 0 {
        "0"@
    } else if d == 1 {
        "1"@
    } else if d == 2 {
        "2"@
    } else if d == 3 {
        "3"@
    } else if d == 4 {
        "4"@
    } else if d == 5 {
        "5"@
    } else if d == 6 {
        "6"@
    } else if d == 7 {
        "7"@
    } else if d == 8 {
        "8"@
    } else {
        "9"@
    }
}

/// The decimal rendering of `n`, most significant digit first.
pub open spec fn dec_seq(n: nat) -> Seq<char>
    decreases n,
{
    if n < 10 {
        digit_seq(n)
    } else {
        dec_seq(n / 10) + digit_seq(n % 10)
    }
}

/// One quantity with its unit: nothing when zero, singular for one,
/// plural otherwise, as the duration formatter prints it.
pub open spec fn unit_seq(n: nat, singular: Seq<char>, plural: Seq<char>) -> Seq<char> {
    if n == 0 {
        Seq::empty()
    } else if n == 1 {
        dec_seq(n) + singular
    } else {
        dec_seq(n) + plural
    }
}

/// The full rendering of a duration of `secs` seconds: days, hours and
/// minutes when present, then seconds (`~0 seconds` when none remain).
pub open spec fn spec_readable_duration(secs: nat) -> Seq<char> {
    let days = secs / 86400;
    let hours = (secs - days * 86400) as nat / 3600;
    let minutes = ((secs - days * 86400) as nat - hours * 3600) as nat / 60;
    let seconds = secs % 60;
    let spart = if seconds == 0 {
        "~0 seconds"@
    } else if seconds == 1 {
        dec_seq(seconds) + " second"@
    } else {
        dec_seq(seconds) + " seconds"@
    };
    unit_seq(days, " day, "@, " days, "@) + unit_seq(hours, " hour, "@, " hours, "@) + unit_seq(
        minutes,
        " minute, "@,
        " minutes, "@,
    ) + spart
}

/// The decimal digit character for `d`.
fn digit_str(d: u64) -> (s: &'static str)
    requires
        d < 10,
    ensures
        s@ == digit_seq(d as nat),
{
    if d == 0 {
        "0"
    } else if d == 1 {
        "1"
    } else if d == 2 {
        "2"
    } else if d == 3 {
        "3"
    } else if d == 4 {
        "4"
    } else if d == 5 {
        "5"
    } else if d == 6 {
        "6"
    } else if d == 7 {
        "7"
    } else if d == 8 {
        "8"
    } else {
        "9"
    }
}

/// Render `n` in decimal.
pub fn u64_to_string(n: u64) -> (s: String)
    ensures
        s@ == dec_seq(n as nat),
    decreases n,
{
    if n < 10 {
        let mut s: String = String::new();
        s.append(digit_str(n));
        proof {
            assert(s@ =~= dec_seq(n as nat));
        }
        s
    } else {
        let mut s: String = u64_to_string(n / 10);
        s.append(digit_str(n % 10));
        s
    }
}

/// Append one quantity with its unit, as `unit_seq` describes.
fn append_unit(s: &mut String, n: u64, singular: &str, plural: &str)
    ensures
        final(s)@ == old(s)@ + unit_seq(n as nat, singular@, plural@),
{
    if n == 0 {
        proof {
            assert(s@ =~= old(s)@ + unit_seq(n as nat, singular@, plural@));
        }
    } else {
        let ns: String = u64_to_string(n);
        s.append(ns.as_str());
        if n == 1 {
            s.append(singular);
        } else {
            s.append(plural);
        }
        proof {
            assert(s@ =~= old(s)@ + unit_seq(n as nat, singular@, plural@));
        }
    }
}

/// Render a duration of whole seconds in words, largest unit first:
/// units that are zero are left out, one is singular, and a duration
/// under one second reads `~0 seconds`.
pub fn get_readable_duration(secs: u64) -> (s: String)
    ensures
        s@ == spec_readable_duration(secs as nat),
{
    let days: u64 = secs / 86400;
    proof {
        vstd::arithmetic::div_mod::lemma_fundamental_div_mod(secs as int, 86400);
        vstd::arithmetic::div_mod::lemma_fundamental_div_mod((secs - days * 86400) as int, 3600);
    }
    let rem1: u64 = secs - days * 86400;
    let hours: u64 = rem1 / 3600;
    let rem2: u64 = rem1 - hours * 3600;
    let minutes: u64 = rem2 / 60;
    let seconds: u64 = secs % 60;
    let mut s: String = String::new();
    append_unit(&mut s, days, " day, ", " days, ");
    append_unit(&mut s, hours, " hour, ", " hours, ");
    append_unit(&mut s, minutes, " minute, ", " minutes, ");
    if seconds == 0 {
        s.append("~0 seconds");
    } else {
        let ss: String = u64_to_string(seconds);
        s.append(ss.as_str());
        if seconds == 1 {
            s.append(" second");
        } else {
            s.append(" seconds");
        }
    }
    proof {
        assert(s@ =~= spec_readable_duration(secs as nat));
    }
    s
}

} // verus!
