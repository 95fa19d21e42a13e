//! Decimal rendering and the fixed human-readable duration breakdown.
//!
//! The breakdown renders, in order: days, hours, minutes, seconds,
//! milliseconds, microseconds, nanoseconds. The days, hours and minutes
//! fields are each derived independently from the total number of seconds
//! (total / 86400, total / 3600, total / 60): hours and minutes are *not*
//! reduced modulo the next-larger unit. Each field after the days is
//! zero-padded to its width: two digits for hours, minutes and seconds,
//! three for the sub-second fields. Both policies are applied alike to the
//! per-run and the average rendering.

use vstd::prelude::*;
use vstd::string::StringExecFns;

use crate::duration::Dur;

verus! {

/// The decimal digit character for a value below ten.
pub open spec fn digit_char(d: nat) -> char {
    if d == 0 {
        '0'
    } else if d == 1 {
        '1'
    } else if d == 2 {
        '2'
    } else if d == 3 {
        '3'
    } else if d == 4 {
        '4'
    } else if d == 5 {
        '5'
    } else if d == 6 {
        '6'
    } else if d == 7 {
        '7'
    } else if d == 8 {
        '8'
    } else {
        '9'
    }
}

/// The decimal rendering of `n`, most significant digit first, with no
/// leading zeroes (a single `'0'` for zero itself).
pub open spec fn dec_spec(n: nat) -> Seq<char>
    decreases n,
{
    if n < 10 {
        seq![digit_char(n)]
    } else {
        dec_spec(n / 10) + seq![digit_char(n % 10)]
    }
}

/// `s` zero-padded on the left to width `w`; a rendering already at least
/// `w` long is unchanged.
pub open spec fn pad_spec(s: Seq<char>, w: int) -> Seq<char> {
    if s.len() >= w {
        s
    } else {
        Seq::new((w - s.len()) as nat, |i: int| '0') + s
    }
}

/// A decimal rendering is never empty.
pub proof fn lemma_dec_len_pos(n: nat)
    ensures
        dec_spec(n).len() >= 1,
    decreases n,
{
    if n >= 10 {
        lemma_dec_len_pos(n / 10);
    }
}

/// A value of ten or more renders to at least two digits.
pub proof fn lemma_dec_len_ge2(n: nat)
    requires
        n >= 10,
    ensures
        dec_spec(n).len() >= 2,
{
    lemma_dec_len_pos(n / 10);
}

/// A value of one hundred or more renders to at least three digits.
pub proof fn lemma_dec_len_ge3(n: nat)
    requires
        n >= 100,
    ensures
        dec_spec(n).len() >= 3,
{
    lemma_dec_len_ge2(n / 10);
}

/// The one-character string for a decimal digit.
fn digit_str(d: u64) -> (r: &'static str)
    requires
        d < 10,
    ensures
        r@ == seq![digit_char(d as nat)],
{
    if d == 0 {
        proof {
            reveal_strlit("0");
            assert("0"@ =~= seq!['0']);
        }
        "0"
    } else if d == 1 {
        proof {
            reveal_strlit("1");
            assert("1"@ =~= seq!['1']);
        }
        "1"
    } else if d == 2 {
        proof {
            reveal_strlit("2");
            assert("2"@ =~= seq!['2']);
        }
        "2"
    } else if d == 3 {
        proof {
            reveal_strlit("3");
            assert("3"@ =~= seq!['3']);
        }
        "3"
    } else if d == 4 {
        proof {
            reveal_strlit("4");
            assert("4"@ =~= seq!['4']);
        }
        "4"
    } else if d == 5 {
        proof {
            reveal_strlit("5");
            assert("5"@ =~= seq!['5']);
        }
        "5"
    } else if d == 6 {
        proof {
            reveal_strlit("6");
            assert("6"@ =~= seq!['6']);
        }
        "6"
    } else if d == 7 {
        proof {
            reveal_strlit("7");
            assert("7"@ =~= seq!['7']);
        }
        "7"
    } else if d == 8 {
        proof {
            reveal_strlit("8");
            assert("8"@ =~= seq!['8']);
        }
        "8"
    } else {
        proof {
            reveal_strlit("9");
            assert("9"@ =~= seq!['9']);
        }
        "9"
    }
}

/// Renders `n` in decimal, matching `dec_spec`.
pub fn u64_to_dec(n: u64) -> (r: String)
    ensures
        r@ == dec_spec(n as nat),
    decreases n,
{
    if n < 10 {
        String::from_str(digit_str(n))
    } else {
        let mut s = u64_to_dec(n / 10);
        s.append(digit_str(n % 10));
        s
    }
}

/// Renders `n` zero-padded to width two.
fn dec_pad2(n: u64) -> (r: String)
    ensures
        r@ == pad_spec(dec_spec(n as nat), 2),
{
    if n < 10 {
        let mut s = String::from_str("0");
        s.append(digit_str(n));
        proof {
            reveal_strlit("0");
            assert("0"@ =~= Seq::new(1, |i: int| '0'));
        }
        s
    } else {
        proof {
            lemma_dec_len_ge2(n as nat);
        }
        u64_to_dec(n)
    }
}

/// Renders `n` zero-padded to width three.
fn dec_pad3(n: u64) -> (r: String)
    ensures
        r@ == pad_spec(dec_spec(n as nat), 3),
{
    if n < 10 {
        let mut s = String::from_str("00");
        s.append(digit_str(n));
        proof {
            reveal_strlit("00");
            assert("00"@ =~= Seq::new(2, |i: int| '0'));
        }
        s
    } else if n < 100 {
        let mut s = String::from_str("0");
        let d = u64_to_dec(n);
        s.append(d.as_str());
        proof {
            lemma_dec_len_ge2(n as nat);
            reveal_strlit("0");
            assert("0"@ =~= Seq::new(1, |i: int| '0'));
            assert(dec_spec(n as nat).len() == 2) by {
                lemma_dec_len_pos(n as nat / 10);
            };
        }
        s
    } else {
        proof {
            lemma_dec_len_ge3(n as nat);
        }
        u64_to_dec(n)
    }
}

/// The full breakdown of a duration: days, then hours, minutes and seconds
/// derived from the total seconds (hours and minutes not reduced modulo the
/// larger unit), then the sub-second milli/micro/nano fields.
pub open spec fn format_spec(d: Dur) -> Seq<char> {
    dec_spec((d.secs / 86400) as nat) + " days, "@ + pad_spec(
        dec_spec((d.secs / 3600) as nat),
        2,
    ) + " hrs "@ + pad_spec(dec_spec((d.secs / 60) as nat), 2) + " min "@ + pad_spec(
        dec_spec((d.secs % 60) as nat),
        2,
    ) + " sec "@ + pad_spec(dec_spec((d.nanos / 1_000_000) as nat), 3) + " ms "@ + pad_spec(
        dec_spec(((d.nanos / 1_000) % 1_000) as nat),
        3,
    ) + " us "@ + pad_spec(dec_spec((d.nanos % 1_000) as nat), 3) + " ns"@
}

/// Renders a duration as the fixed breakdown given by [`format_spec`].
/// The rendering is a pure function of the duration's value.
pub fn parse_time(time: Dur) -> (r: String)
    ensures
        r@ == format_spec(time),
{
    let mut s = u64_to_dec(time.secs / 86400);
    s.append(" days, ");
    let hrs = dec_pad2(time.secs / 3600);
    s.append(hrs.as_str());
    s.append(" hrs ");
    let mins = dec_pad2(time.secs / 60);
    s.append(mins.as_str());
    s.append(" min ");
    let secs = dec_pad2(time.secs % 60);
    s.append(secs.as_str());
    s.append(" sec ");
    let ms = dec_pad3((time.nanos / 1_000_000) as u64);
    s.append(ms.as_str());
    s.append(" ms ");
    let us = dec_pad3(((time.nanos / 1_000) % 1_000) as u64);
    s.append(us.as_str());
    s.append(" us ");
    let ns = dec_pad3((time.nanos % 1_000) as u64);
    s.append(ns.as_str());
    s.append(" ns");
    s
}

/// The rendering is deterministic: equal duration values have equal
/// renderings, so formatting the same duration twice yields the same string.
pub proof fn lemma_format_deterministic(d1: Dur, d2: Dur)
    requires
        d1 == d2,
    ensures
        format_spec(d1) == format_spec(d2),
{
}

/// The zero duration renders with every field zero, each zero-padded to
/// its documented width.
pub proof fn lemma_format_zero()
    ensures
        format_spec((Dur { secs: 0, nanos: 0 }))
            == "0 days, 00 hrs 00 min 00 sec 000 ms 000 us 000 ns"@,
{
    reveal_strlit("0 days, 00 hrs 00 min 00 sec 000 ms 000 us 000 ns");
    reveal_strlit(" days, ");
    reveal_strlit(" hrs ");
    reveal_strlit(" min ");
    reveal_strlit(" sec ");
    reveal_strlit(" ms ");
    reveal_strlit(" us ");
    reveal_strlit(" ns");
    assert(format_spec((Dur { secs: 0, nanos: 0 })) =~= "0 days, 00 hrs 00 min 00 sec 000 ms 000 us 000 ns"@);
}

} // verus!
