use vstd::prelude::*;
use vstd::string::StrSliceExecFns;

use crate::data::DateVal;
use crate::tz::ny_utc_of;
use crate::tz::utc_compact;

verus! {

/// ASCII uppercase of one character.
pub open spec fn upper_char(c: char) -> char {
    if 97 <= c as u32 && c as u32 <= 122 {
        (((c as u32) - 32) as u8) as char
    } else {
        c
    }
}

fn upper_char_exec(c: char) -> (r: char)
    ensures
        r == upper_char(c),
{
    let u = c as u32;
    if 97 <= u && u <= 122 {
        ((u - 32) as u8) as char
    } else {
        c
    }
}

/// The weekday token formatted for a recurrence rule: every character
/// upper-cased (ASCII), with a comma before each two-character group after
/// the first.
pub open spec fn weekday_formatted(s: Seq<char>) -> Seq<char>
    decreases s.len(),
{
    if s.len() == 0 {
        Seq::empty()
    } else {
        let prefix = weekday_formatted(s.drop_last());
        let sep: Seq<char> = if s.len() > 1 && (s.len() - 1) % 2 == 0 {
            seq![',']
        } else {
            Seq::empty()
        };
        prefix + sep + seq![upper_char(s.last())]
    }
}

/// Formats a weekday token such as `MoWeFr` as `MO,WE,FR`.
pub fn format_weekday(days: &str) -> (r: String)
    ensures
        r@ == weekday_formatted(days@),
{
    let n = days.unicode_len();
    let mut out = String::new();
    let mut i: usize = 0;
    while i < n
        invariant
            0 <= i <= n,
            n == days@.len(),
            out@ == weekday_formatted(days@.subrange(0, i as int)),
        decreases n - i,
    {
        if i != 0 && i % 2 == 0 {
            out.push(',');
        }
        out.push(upper_char_exec(days.get_char(i)));
        proof {
            assert(days@.subrange(0, i + 1).drop_last() =~= days@.subrange(0, i as int));
            assert(days@.subrange(0, i + 1).last() == days@[i as int]);
            assert(out@ =~= weekday_formatted(days@.subrange(0, i + 1)));
        }
        i += 1;
    }
    proof {
        assert(days@.subrange(0, n as int) =~= days@);
    }
    out
}

/// Weekday formatting is a pure function of the upper-cased token: a token
/// and its character-wise ASCII upper-case format the same.
pub proof fn lemma_format_weekday_upper(s: Seq<char>)
    ensures
        weekday_formatted(s.map_values(|c: char| upper_char(c))) == weekday_formatted(s),
    decreases s.len(),
{
    if s.len() > 0 {
        let m = s.map_values(|c: char| upper_char(c));
        assert(m.drop_last() =~= s.drop_last().map_values(|c: char| upper_char(c)));
        lemma_format_weekday_upper(s.drop_last());
        assert(m.last() == upper_char(s.last()));
        assert(upper_char(upper_char(s.last())) == upper_char(s.last()));
        assert(weekday_formatted(m) =~= weekday_formatted(s));
    }
}

/// The weekly recurrence rule for weekday token `days` and inclusive end
/// date `end`: the UNTIL bound is 23:59:59 New York wall time on `end`,
/// rendered on the UTC timeline.
pub open spec fn rrule_of(days: Seq<char>, end: DateVal) -> Seq<char> {
    "FREQ=WEEKLY;INTERVAL=1;UNTIL="@ + utc_compact(
        ny_utc_of(end.year, end.month, end.day, 23, 59, 59),
    ) + ";BYDAY="@ + weekday_formatted(days)
}

} // verus!
