use vstd::prelude::*;
use vstd::string::StrSliceExecFns;

use crate::data::Date;
use crate::data::DateVal;
use crate::data::Status;
use crate::data::StatusVal;
use crate::data::Mode;
use crate::data::ModeVal;
use crate::data::Time;
use crate::data::TimeVal;
use crate::data::days_in_month;
use crate::data::is_leap_year;
use crate::data::valid_ymd;
use crate::errors::Error;
use crate::errors::ErrorVal;
use crate::errors::Field;
use crate::text::all_digits;
use crate::text::digits_val;
use crate::text::find_char;
use crate::text::find_char_in;
use crate::text::lemma_digits_val1;
use crate::text::lemma_digits_val2;
use crate::text::trim;
use crate::text::trim_spec;
use crate::text::trim_start;
use crate::text::trim_start_spec;
use crate::data::Dates;
use crate::data::DatesVal;
use crate::data::Schedule;
use crate::data::ScheduleVal;

verus! {

// ---------------------------------------------------------------------------
// Status and mode
// ---------------------------------------------------------------------------

/// How a status field reads: the two recognized words, or the text itself.
pub open spec fn status_parsed(s: Seq<char>) -> StatusVal {
    if s == "Enrolled"@ {
        StatusVal::Enrolled
    } else if s == "Dropped"@ {
        StatusVal::Dropped
    } else {
        StatusVal::Other(s)
    }
}

/// Total status parser: unrecognized text is preserved in `Other`.
pub fn parse_status(s: &str) -> (r: Status)
    ensures
        r@ == status_parsed(s@),
{
    if crate::text::str_eq(s, "Enrolled") {
        Status::Enrolled
    } else if crate::text::str_eq(s, "Dropped") {
        Status::Dropped
    } else {
        Status::Other(s.to_owned())
    }
}

/// How a mode field reads: the three recognized letters, or the text itself.
pub open spec fn mode_parsed(s: Seq<char>) -> ModeVal {
    if s == "P"@ {
        ModeVal::InPerson
    } else if s == "O"@ {
        ModeVal::Online
    } else if s == "H"@ {
        ModeVal::Hybrid
    } else {
        ModeVal::Other(s)
    }
}

/// Total mode parser: unrecognized text is preserved in `Other`.
pub fn parse_mode(s: &str) -> (r: Mode)
    ensures
        r@ == mode_parsed(s@),
{
    if crate::text::str_eq(s, "P") {
        Mode::InPerson
    } else if crate::text::str_eq(s, "O") {
        Mode::Online
    } else if crate::text::str_eq(s, "H") {
        Mode::Hybrid
    } else {
        Mode::Other(s.to_owned())
    }
}

// ---------------------------------------------------------------------------
// Time of day
// ---------------------------------------------------------------------------

/// Reads a two-character AM/PM marker, either case; `Some(true)` means PM.
pub open spec fn am_pm_parsed(ap: Seq<char>) -> Option<bool> {
    if ap.len() == 2 && (ap[1] == 'M' || ap[1] == 'm') {
        if ap[0] == 'A' || ap[0] == 'a' {
            Option::Some(false)
        } else if ap[0] == 'P' || ap[0] == 'p' {
            Option::Some(true)
        } else {
            Option::None
        }
    } else {
        Option::None
    }
}

/// A 12-hour clock reading on the 24-hour clock.
pub open spec fn to_hour24(h12: int, pm: bool) -> int {
    if pm {
        if h12 == 12 {
            12
        } else {
            h12 + 12
        }
    } else {
        if h12 == 12 {
            0
        } else {
            h12
        }
    }
}

pub open spec fn time_fields_parsed(hd: Seq<char>, colon: char, md: Seq<char>, ap: Seq<
    char,
>) -> Option<TimeVal> {
    if colon == ':' && all_digits(hd) && all_digits(md) && 1 <= digits_val(hd) <= 12
        && digits_val(md) <= 59 && am_pm_parsed(ap) is Some {
        Option::Some(
            TimeVal {
                hour: to_hour24(digits_val(hd), am_pm_parsed(ap)->Some_0),
                minute: digits_val(md),
            },
        )
    } else {
        Option::None
    }
}

pub open spec fn time_core_parsed(t: Seq<char>) -> Option<TimeVal> {
    if t.len() == 6 {
        time_fields_parsed(t.subrange(0, 1), t[1], t.subrange(2, 4), t.subrange(4, 6))
    } else if t.len() == 7 {
        time_fields_parsed(t.subrange(0, 2), t[2], t.subrange(3, 5), t.subrange(5, 7))
    } else {
        Option::None
    }
}

/// A 12-hour clock token: optional leading whitespace, an hour of one or two
/// digits reading 1 to 12, a colon, a two-digit minute, then AM or PM with
/// each letter in either case.
pub open spec fn time_parsed(s: Seq<char>) -> Option<TimeVal> {
    time_core_parsed(trim_start_spec(s))
}

fn parse_time_core(t: &str) -> (r: Option<Time>)
    ensures
        match time_core_parsed(t@) {
            Option::Some(tv) => r matches Some(x) && x@ == tv && x.wf(),
            Option::None => r is None,
        },
{
    let n = t.unicode_len();
    if n != 6 && n != 7 {
        return None;
    }
    let hl: usize = if n == 6 {
        1
    } else {
        2
    };
    let ghost hd = t@.subrange(0, hl as int);
    let ghost md = t@.subrange(hl + 1, hl + 3);
    let ghost ap = t@.subrange(hl + 3, hl + 5);
    let c0 = t.get_char(0);
    proof {
        assert(hd[0] == t@[0]);
        if hl == 2 {
            assert(hd[1] == t@[1]);
        }
    }
    if !crate::text::is_digit_exec(c0) {
        return None;
    }
    let mut h: u32 = (c0 as u32) - 48;
    if hl == 2 {
        let c1 = t.get_char(1);
        if !crate::text::is_digit_exec(c1) {
            return None;
        }
        h = h * 10 + ((c1 as u32) - 48);
        proof {
            lemma_digits_val2(hd);
        }
    } else {
        proof {
            lemma_digits_val1(hd);
        }
    }
    assert(all_digits(hd));
    assert(h as int == digits_val(hd));
    if t.get_char(hl) != ':' {
        return None;
    }
    let c2 = t.get_char(hl + 1);
    let c3 = t.get_char(hl + 2);
    if !crate::text::is_digit_exec(c2) || !crate::text::is_digit_exec(c3) {
        assert(!all_digits(md)) by {
            assert(md[0] == t@[hl + 1] && md[1] == t@[hl + 2]);
        }
        return None;
    }
    let m: u32 = (c2 as u32 - 48) * 10 + (c3 as u32 - 48);
    proof {
        lemma_digits_val2(md);
        assert(md[0] == t@[hl + 1] && md[1] == t@[hl + 2]);
        assert(all_digits(md));
        assert(m as int == digits_val(md));
    }
    let a0 = t.get_char(hl + 3);
    let a1 = t.get_char(hl + 4);
    proof {
        assert(ap[0] == t@[hl + 3] && ap[1] == t@[hl + 4]);
    }
    if !(a1 == 'M' || a1 == 'm') {
        return None;
    }
    let pm: bool = if a0 == 'A' || a0 == 'a' {
        false
    } else if a0 == 'P' || a0 == 'p' {
        true
    } else {
        return None;
    };
    assert(am_pm_parsed(ap) == Option::Some(pm));
    if !(1 <= h && h <= 12) || !(m <= 59) {
        return None;
    }
    let hour24: u32 = if pm {
        if h == 12 {
            12
        } else {
            h + 12
        }
    } else {
        if h == 12 {
            0
        } else {
            h
        }
    };
    Some(Time { hour: hour24 as u8, minute: m as u8 })
}

/// Parses a 12-hour clock token such as `2:00PM`, tolerating leading
/// whitespace before the hour.
pub fn parse_time(s: &str) -> (r: Result<Time, Error>)
    ensures
        match time_parsed(s@) {
            Option::Some(tv) => r matches Ok(t) && t@ == tv && t.wf(),
            Option::None => r matches Err(e) && e@ == (ErrorVal::FieldFormat {
                field: Field::Time,
                raw: s@,
            }),
        },
{
    let t = trim_start(s);
    match parse_time_core(t) {
        Some(x) => Ok(x),
        None => Err(Error::FieldFormat { field: Field::Time, raw: s.to_owned() }),
    }
}

// ---------------------------------------------------------------------------
// Calendar dates
// ---------------------------------------------------------------------------

/// A slash-separated date component: non-empty, all digits, fitting `u32`.
pub open spec fn date_component_ok(p: Seq<char>) -> bool {
    p.len() > 0 && all_digits(p) && digits_val(p) <= u32::MAX
}

/// A date written `MM/DD/YYYY`: exactly three slash-separated numeric
/// components naming a real calendar date with a four-digit year at most.
pub open spec fn date_parsed(s: Seq<char>) -> Option<DateVal> {
    match find_char(s, '/') {
        Option::None => Option::None,
        Option::Some(i) => {
            let rest = s.subrange(i + 1, s.len() as int);
            match find_char(rest, '/') {
                Option::None => Option::None,
                Option::Some(j) => {
                    let p0 = s.subrange(0, i);
                    let p1 = rest.subrange(0, j);
                    let p2 = rest.subrange(j + 1, rest.len() as int);
                    if find_char(p2, '/') is None && date_component_ok(p0) && date_component_ok(p1)
                        && date_component_ok(p2) && valid_ymd(
                        digits_val(p2),
                        digits_val(p0),
                        digits_val(p1),
                    ) {
                        Option::Some(
                            DateVal {
                                year: digits_val(p2),
                                month: digits_val(p0),
                                day: digits_val(p1),
                            },
                        )
                    } else {
                        Option::None
                    }
                },
            }
        },
    }
}

fn days_in_month_exec(y: u32, m: u32) -> (r: u32)
    ensures
        r as int == days_in_month(y as int, m as int),
{
    if m == 2 {
        if (y % 4 == 0 && y % 100 != 0) || y % 400 == 0 {
            assert(is_leap_year(y as int));
            29
        } else {
            assert(!is_leap_year(y as int));
            28
        }
    } else if m == 4 || m == 6 || m == 9 || m == 11 {
        30
    } else {
        31
    }
}

/// Parses a date written `MM/DD/YYYY` and checks it names a real calendar
/// date (years 0 to 9999).
pub fn parse_date(s: &str) -> (r: Result<Date, Error>)
    ensures
        match date_parsed(s@) {
            Option::Some(dv) => r matches Ok(d) && d@ == dv && d.wf(),
            Option::None => r matches Err(e) && e@ == (ErrorVal::FieldFormat {
                field: Field::Date,
                raw: s@,
            }),
        },
{
    let n = s.unicode_len();
    let i = match find_char_in(s, '/') {
        Some(i) => i,
        None => {
            return Err(Error::FieldFormat { field: Field::Date, raw: s.to_owned() });
        },
    };
    let rest = s.substring_char(i + 1, n);
    let rn = rest.unicode_len();
    let j = match find_char_in(rest, '/') {
        Some(j) => j,
        None => {
            return Err(Error::FieldFormat { field: Field::Date, raw: s.to_owned() });
        },
    };
    let p0 = s.substring_char(0, i);
    let p1 = rest.substring_char(0, j);
    let p2 = rest.substring_char(j + 1, rn);
    if find_char_in(p2, '/').is_some() {
        return Err(Error::FieldFormat { field: Field::Date, raw: s.to_owned() });
    }
    let month = match crate::text::parse_u32_digits(p0) {
        Some(v) => v,
        None => {
            return Err(Error::FieldFormat { field: Field::Date, raw: s.to_owned() });
        },
    };
    let day = match crate::text::parse_u32_digits(p1) {
        Some(v) => v,
        None => {
            return Err(Error::FieldFormat { field: Field::Date, raw: s.to_owned() });
        },
    };
    let year = match crate::text::parse_u32_digits(p2) {
        Some(v) => v,
        None => {
            return Err(Error::FieldFormat { field: Field::Date, raw: s.to_owned() });
        },
    };
    if 1 <= month && month <= 12 && year <= 9999 && 1 <= day && day <= days_in_month_exec(
        year,
        month,
    ) {
        Ok(Date { year, month: month as u8, day: day as u8 })
    } else {
        Err(Error::FieldFormat { field: Field::Date, raw: s.to_owned() })
    }
}

// ---------------------------------------------------------------------------
// Date ranges
// ---------------------------------------------------------------------------

/// A date range: two dates around the first hyphen, each trimmed; the whole
/// field is trimmed first.
pub open spec fn dates_parsed(s: Seq<char>) -> Option<DatesVal> {
    let t = trim_spec(s);
    match find_char(t, '-') {
        Option::None => Option::None,
        Option::Some(i) => {
            let a = trim_spec(t.subrange(0, i));
            let b = trim_spec(t.subrange(i + 1, t.len() as int));
            if date_parsed(a) is Some && date_parsed(b) is Some {
                Option::Some(
                    DatesVal { start: date_parsed(a)->Some_0, end: date_parsed(b)->Some_0 },
                )
            } else {
                Option::None
            }
        },
    }
}

/// The diagnostic a malformed date range carries: the whole field when the
/// hyphen is missing, else the first half that is not a date.
pub open spec fn dates_error(s: Seq<char>) -> ErrorVal {
    let t = trim_spec(s);
    match find_char(t, '-') {
        Option::None => ErrorVal::FieldFormat { field: Field::Dates, raw: s },
        Option::Some(i) => {
            let a = trim_spec(t.subrange(0, i));
            let b = trim_spec(t.subrange(i + 1, t.len() as int));
            if date_parsed(a) is None {
                ErrorVal::FieldFormat { field: Field::Date, raw: a }
            } else {
                ErrorVal::FieldFormat { field: Field::Date, raw: b }
            }
        },
    }
}

/// Parses a date range such as `01/18/2022 - 05/05/2022`, splitting on the
/// first hyphen of the trimmed field.
pub fn parse_dates(s: &str) -> (r: Result<Dates, Error>)
    ensures
        match dates_parsed(s@) {
            Option::Some(dv) => r matches Ok(d) && d@ == dv && d.wf(),
            Option::None => r matches Err(e) && e@ == dates_error(s@),
        },
{
    let t = trim(s);
    let tn = t.unicode_len();
    match find_char_in(t, '-') {
        None => Err(Error::FieldFormat { field: Field::Dates, raw: s.to_owned() }),
        Some(i) => {
            let a = trim(t.substring_char(0, i));
            let b = trim(t.substring_char(i + 1, tn));
            match parse_date(a) {
                Err(e) => Err(e),
                Ok(x) => match parse_date(b) {
                    Err(e) => Err(e),
                    Ok(y) => Ok(Dates { start: x, end: y }),
                },
            }
        },
    }
}

// ---------------------------------------------------------------------------
// Title and subject code
// ---------------------------------------------------------------------------

/// The three-character separator ` - ` stands at position `k` of `s`.
pub open spec fn sep_at(s: Seq<char>, k: int) -> bool {
    s[k] == ' ' && s[k + 1] == '-' && s[k + 2] == ' '
}

/// Index of the first ` - ` in `s`, if any.
pub open spec fn find_sep(s: Seq<char>) -> Option<int>
    decreases s.len(),
{
    if s.len() < 3 {
        Option::None
    } else if sep_at(s, 0) {
        Option::Some(0)
    } else {
        match find_sep(s.drop_first()) {
            Option::Some(i) => Option::Some(i + 1),
            Option::None => Option::None,
        }
    }
}

proof fn lemma_find_sep_none(s: Seq<char>)
    requires
        forall|k: int| 0 <= k <= s.len() - 3 ==> !sep_at(s, k),
    ensures
        find_sep(s) is None,
    decreases s.len(),
{
    if s.len() >= 3 {
        let t = s.drop_first();
        assert forall|k: int| 0 <= k <= t.len() - 3 implies !sep_at(t, k) by {
            assert(t[k] == s[k + 1] && t[k + 1] == s[k + 2] && t[k + 2] == s[k + 3]);
            assert(!sep_at(s, k + 1));
        }
        lemma_find_sep_none(t);
    }
}

proof fn lemma_find_sep_some(s: Seq<char>, i: int)
    requires
        0 <= i <= s.len() - 3,
        sep_at(s, i),
        forall|k: int| 0 <= k < i ==> !sep_at(s, k),
    ensures
        find_sep(s) == Option::Some(i),
    decreases i,
{
    if i == 0 {
    } else {
        let t = s.drop_first();
        assert(t[i - 1] == s[i] && t[i] == s[i + 1] && t[i + 1] == s[i + 2]);
        assert(sep_at(t, i - 1));
        assert forall|k: int| 0 <= k < i - 1 implies !sep_at(t, k) by {
            assert(t[k] == s[k + 1] && t[k + 1] == s[k + 2] && t[k + 2] == s[k + 3]);
            assert(!sep_at(s, k + 1));
        }
        lemma_find_sep_some(t, i - 1);
    }
}

/// First occurrence of ` - ` in `s`.
fn find_sep_in(s: &str) -> (r: Option<usize>)
    ensures
        match r {
            Option::Some(i) => i + 3 <= s@.len() && sep_at(s@, i as int) && find_sep(s@)
                == Option::Some(i as int),
            Option::None => find_sep(s@) is None,
        },
{
    let n = s.unicode_len();
    let mut i: usize = 0;
    loop
        invariant
            0 <= i <= n,
            n == s@.len(),
            forall|k: int| 0 <= k < i ==> !sep_at(s@, k),
        ensures
            0 <= i <= n,
            forall|k: int| 0 <= k < i ==> !sep_at(s@, k),
            i + 3 <= n ==> sep_at(s@, i as int),
        decreases n - i,
    {
        if n >= 3 && i <= n - 3 {
            if s.get_char(i) == ' ' && s.get_char(i + 1) == '-' && s.get_char(i + 2) == ' ' {
                break ;
            } else {
                i += 1;
            }
        } else {
            break ;
        }
    }
    if n >= 3 && i <= n - 3 {
        proof {
            lemma_find_sep_some(s@, i as int);
        }
        Some(i)
    } else {
        proof {
            assert forall|k: int| 0 <= k <= s@.len() - 3 implies !sep_at(s@, k) by {
                assert(k < i);
            }
            lemma_find_sep_none(s@);
        }
        None
    }
}

/// A combined title field: `SUBJ CODE - Title`, the whole trimmed, the
/// subject-and-code block trimmed and split on its first space, the code a
/// positive integer.
pub open spec fn title_parsed(s: Seq<char>) -> Option<(Seq<char>, int, Seq<char>)> {
    let t = trim_spec(s);
    match find_sep(t) {
        Option::None => Option::None,
        Option::Some(i) => {
            let sc = trim_spec(t.subrange(0, i));
            let title = t.subrange(i + 3, t.len() as int);
            match find_char(sc, ' ') {
                Option::None => Option::None,
                Option::Some(j) => {
                    let subj = sc.subrange(0, j);
                    let code = sc.subrange(j + 1, sc.len() as int);
                    if code.len() > 0 && all_digits(code) && digits_val(code) <= u32::MAX
                        && digits_val(code) >= 1 {
                        Option::Some((subj, digits_val(code), title))
                    } else {
                        Option::None
                    }
                },
            }
        },
    }
}

/// The diagnostic a malformed title carries.
pub open spec fn title_error(s: Seq<char>) -> ErrorVal {
    let t = trim_spec(s);
    match find_sep(t) {
        Option::None => ErrorVal::FieldFormat { field: Field::Title, raw: s },
        Option::Some(i) => {
            let sc = trim_spec(t.subrange(0, i));
            match find_char(sc, ' ') {
                Option::None => ErrorVal::FieldFormat { field: Field::SubjectCode, raw: s },
                Option::Some(j) => ErrorVal::FieldFormat { field: Field::CourseCode, raw: s },
            }
        },
    }
}

/// Splits a combined title field into subject, positive course code and
/// title text.
pub fn parse_title(s: &str) -> (r: Result<(String, u32, String), Error>)
    ensures
        match title_parsed(s@) {
            Option::Some(v) => r matches Ok(tr) && tr.0@ == v.0 && tr.1 as int == v.1 && tr.2@
                == v.2,
            Option::None => r matches Err(e) && e@ == title_error(s@),
        },
{
    let t = trim(s);
    let tn = t.unicode_len();
    let i = match find_sep_in(t) {
        Some(i) => i,
        None => {
            return Err(Error::FieldFormat { field: Field::Title, raw: s.to_owned() });
        },
    };
    let sc = trim(t.substring_char(0, i));
    let title = t.substring_char(i + 3, tn);
    let scn = sc.unicode_len();
    let j = match find_char_in(sc, ' ') {
        Some(j) => j,
        None => {
            return Err(Error::FieldFormat { field: Field::SubjectCode, raw: s.to_owned() });
        },
    };
    let subj = sc.substring_char(0, j);
    let code_text = sc.substring_char(j + 1, scn);
    let code = match crate::text::parse_u32_digits(code_text) {
        Some(v) => v,
        None => {
            return Err(Error::FieldFormat { field: Field::CourseCode, raw: s.to_owned() });
        },
    };
    if code == 0 {
        return Err(Error::FieldFormat { field: Field::CourseCode, raw: s.to_owned() });
    }
    Ok((subj.to_owned(), code, title.to_owned()))
}

// ---------------------------------------------------------------------------
// Schedules
// ---------------------------------------------------------------------------

/// A schedule field: the exact word `TBA`, or a weekday token and a
/// hyphen-separated time range after the first space. `None` stands for
/// text of neither shape.
pub open spec fn schedule_parsed(s: Seq<char>) -> Option<ScheduleVal> {
    if s == "TBA"@ {
        Option::Some(ScheduleVal::Tba)
    } else {
        match find_char(s, ' ') {
            Option::None => Option::None,
            Option::Some(i) => {
                let days = trim_spec(s.subrange(0, i));
                let rest = s.subrange(i + 1, s.len() as int);
                match find_char(rest, '-') {
                    Option::None => Option::None,
                    Option::Some(j) => {
                        let a = trim_spec(rest.subrange(0, j));
                        let b = trim_spec(rest.subrange(j + 1, rest.len() as int));
                        if time_parsed(a) is Some && time_parsed(b) is Some {
                            Option::Some(
                                ScheduleVal::Determined {
                                    days,
                                    start: time_parsed(a)->Some_0,
                                    end: time_parsed(b)->Some_0,
                                },
                            )
                        } else {
                            Option::None
                        }
                    },
                }
            },
        }
    }
}

fn sched_fail(s: &str, fallback: bool) -> (r: Result<Schedule, Error>)
    ensures
        fallback ==> (r matches Ok(x) && x@ == ScheduleVal::Unparseable(s@)),
        !fallback ==> (r matches Err(e) && e@ == (ErrorVal::FieldFormat {
            field: Field::Schedule,
            raw: s@,
        })),
{
    if fallback {
        Ok(Schedule::Unparseable(s.to_owned()))
    } else {
        Err(Error::FieldFormat { field: Field::Schedule, raw: s.to_owned() })
    }
}

/// Parses a schedule field such as `MoWeFr 2:00PM - 3:20PM` or `TBA`.
/// With `fallback` true, text of neither shape is preserved as
/// `Unparseable`; with it false, such text is a `FieldFormat` error.
pub fn parse_schedule(s: &str, fallback: bool) -> (r: Result<Schedule, Error>)
    ensures
        match schedule_parsed(s@) {
            Option::Some(sv) => r matches Ok(sch) && sch@ == sv && sch.wf(),
            Option::None => if fallback {
                r matches Ok(sch) && sch@ == ScheduleVal::Unparseable(s@)
            } else {
                r matches Err(e) && e@ == (ErrorVal::FieldFormat {
                    field: Field::Schedule,
                    raw: s@,
                })
            },
        },
{
    if crate::text::str_eq(s, "TBA") {
        return Ok(Schedule::Tba);
    }
    let n = s.unicode_len();
    let i = match find_char_in(s, ' ') {
        Some(i) => i,
        None => {
            return sched_fail(s, fallback);
        },
    };
    let days = trim(s.substring_char(0, i));
    let rest = s.substring_char(i + 1, n);
    let rn = rest.unicode_len();
    let j = match find_char_in(rest, '-') {
        Some(j) => j,
        None => {
            return sched_fail(s, fallback);
        },
    };
    let a = trim(rest.substring_char(0, j));
    let b = trim(rest.substring_char(j + 1, rn));
    let start = match parse_time(a) {
        Ok(x) => x,
        Err(_) => {
            return sched_fail(s, fallback);
        },
    };
    let end = match parse_time(b) {
        Ok(x) => x,
        Err(_) => {
            return sched_fail(s, fallback);
        },
    };
    let sch = Schedule::Determined { days: days.to_owned(), start, end };
    proof {
        assert(sch@ =~= schedule_parsed(s@)->Some_0);
    }
    Ok(sch)
}

// ---------------------------------------------------------------------------
// Optional-field hygiene
// ---------------------------------------------------------------------------

/// Text that counts as absent once trimmed: empty, or one non-breaking
/// space, the character the upstream renderer puts in visually empty cells.
pub open spec fn absent_text(t: Seq<char>) -> bool {
    t.len() == 0 || (t.len() == 1 && t[0] == '\u{a0}')
}

/// An optional field after hygiene: trimmed, and dropped entirely when
/// what remains counts as absent.
pub open spec fn hygiene_spec(o: Option<Seq<char>>) -> Option<Seq<char>> {
    match o {
        Option::None => Option::None,
        Option::Some(s) => {
            let t = trim_spec(s);
            if absent_text(t) {
                Option::None
            } else {
                Option::Some(t)
            }
        },
    }
}

/// Normalizes an optional raw field: trims it, and maps text that counts
/// as absent to `None`.
pub fn hygiene_opt<'a>(o: Option<&'a str>) -> (r: Option<&'a str>)
    ensures
        o is None ==> r is None,
        o matches Some(s) ==> (match hygiene_spec(Option::Some(s@)) {
            Option::Some(t) => r matches Some(x) && x@ == t,
            Option::None => r is None,
        }),
{
    match o {
        None => None,
        Some(s) => {
            let t = trim(s);
            let n = t.unicode_len();
            if n == 0 {
                None
            } else if n == 1 && t.get_char(0) == '\u{a0}' {
                None
            } else {
                Some(t)
            }
        },
    }
}

/// Cleans a raw optional field as [`hygiene_opt`] does.
pub trait Hygiene: Sized {
    fn hygiene(self) -> Self;
}

impl<'a> Hygiene for Option<&'a str> {
    fn hygiene(self) -> (r: Self)
        ensures
            self is None ==> r is None,
            self matches Some(s) ==> (match hygiene_spec(Option::Some(s@)) {
                Option::Some(t) => r matches Some(x) && x@ == t,
                Option::None => r is None,
            }),
    {
        hygiene_opt(self)
    }
}

} // verus!
