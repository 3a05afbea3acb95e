//! The calendar text parser.
//!
//! A calendar file is a sequence of `\n`-separated lines.  A line whose
//! trimmed text is exactly four ASCII digits sets the active year; one
//! whose trimmed text is a recognized month name sets the active month;
//! once both are set, every line is offered to the event grammar, and
//! each match yields one entry.  All other lines are silently skipped.
//!
//! The event grammar, applied from the start of the line (trailing
//! unmatched text is ignored), is
//!
//! ```text
//! date-part "." description [ "@" location ] [ "[" time-part "]" ]
//! ```
//!
//! where `date-part` is a day number, a day number followed by `?`, a
//! `start-end` day range, a range followed by `?`, or a bare `?`; the
//! description runs to the first `@` or `[`; the location runs to the
//! first `[`; and `time-part` is `H.MM` or `H.MM-H.MM` with one or two
//! hour digits and exactly two minute digits.

use vstd::prelude::*;
use vstd::string::*;

use crate::chars::{
    all_digits, digit_val, digits_val, is_digit, is_digit_exec, is_space, parse_u32_digits,
    seq_trim, str_eq_str, trim_str,
};
use crate::shared::{Entry, EntryModel, HourMinute, Month};

verus! {

/// The first position at or after `i` whose character satisfies
/// `stop`, or the end of the sequence.
pub open spec fn seek(s: Seq<char>, i: int, stop: spec_fn(char) -> bool) -> int
    decreases s.len() - i,
{
    if i < s.len() && !stop(s[i]) {
        seek(s, i + 1, stop)
    } else {
        i
    }
}

/// `seek` never moves backwards.
pub proof fn lemma_seek_ge(s: Seq<char>, i: int, stop: spec_fn(char) -> bool)
    ensures
        seek(s, i, stop) >= i,
    decreases s.len() - i,
{
    if i < s.len() && !stop(s[i]) {
        lemma_seek_ge(s, i + 1, stop);
    }
}

/// Any position with no stop character before it and a stop character
/// at it (or the end) is what `seek` finds.
pub proof fn lemma_seek_unique(s: Seq<char>, i: int, stop: spec_fn(char) -> bool, k: int)
    requires
        0 <= i <= k <= s.len(),
        forall|j: int| i <= j < k ==> !stop(s[j]),
        k < s.len() ==> stop(s[k]),
    ensures
        seek(s, i, stop) == k,
    decreases k - i,
{
    if i < k {
        lemma_seek_unique(s, i + 1, stop, k);
    }
}

/// Stops a scan at the first character that is not an ASCII digit.
pub open spec fn digit_stop() -> spec_fn(char) -> bool {
    |c: char| !is_digit(c)
}

/// Stops a scan at the first `@` or `[`: the end of a description.
pub open spec fn desc_stop() -> spec_fn(char) -> bool {
    |c: char| c == '@' || c == '['
}

/// Stops a scan at the first `[`: the end of a location.
pub open spec fn loc_stop() -> spec_fn(char) -> bool {
    |c: char| c == '['
}

/// Stops a scan at the first line break.
pub open spec fn nl_stop() -> spec_fn(char) -> bool {
    |c: char| c == '\n'
}

/// The end of the run of ASCII digits starting at `i`.
pub open spec fn digit_run_end(s: Seq<char>, i: int) -> int {
    seek(s, i, digit_stop())
}

/// The year set by a marker line: the line is a year marker exactly
/// when its trimmed text is four ASCII digits.
pub open spec fn spec_year_marker(l: Seq<char>) -> Option<u32> {
    let t = seq_trim(l);
    if t.len() == 4 && all_digits(t) {
        Some(digits_val(t) as u32)
    } else {
        None
    }
}

/// The month set by a marker line: the line is a month marker exactly
/// when its trimmed text is one of the twelve recognized month names.
pub open spec fn spec_month_marker(l: Seq<char>) -> Option<Month> {
    let t = seq_trim(l);
    if t == "Januar"@ {
        Some(Month::January)
    } else if t == "Februar"@ {
        Some(Month::February)
    } else if t == "Mars"@ {
        Some(Month::March)
    } else if t == "April"@ {
        Some(Month::April)
    } else if t == "Mai"@ {
        Some(Month::May)
    } else if t == "Juni"@ {
        Some(Month::June)
    } else if t == "Juli"@ {
        Some(Month::July)
    } else if t == "August"@ {
        Some(Month::August)
    } else if t == "September"@ {
        Some(Month::September)
    } else if t == "Oktober"@ {
        Some(Month::October)
    } else if t == "November"@ {
        Some(Month::November)
    } else if t == "Desember"@ {
        Some(Month::December)
    } else {
        None
    }
}

/// Powers of ten, for bounding the value of a short digit run.
pub open spec fn ten_pow(n: nat) -> nat
    decreases n,
{
    if n == 0 {
        1
    } else {
        10 * ten_pow((n - 1) as nat)
    }
}

/// A digit run's value is below ten to its length.
pub proof fn lemma_digits_val_bound(s: Seq<char>)
    requires
        all_digits(s),
    ensures
        digits_val(s) < ten_pow(s.len()),
    decreases s.len(),
{
    if s.len() == 0 {
    } else {
        let d = s.drop_last();
        assert(all_digits(d));
        lemma_digits_val_bound(d);
        assert(digit_val(s.last()) <= 9);
    }
}

/// Classifies a year marker line: reports the year when the entire
/// trimmed line is exactly four ASCII digits.
pub fn year_regex(unparsed_entry: &str) -> (r: Option<u32>)
    ensures
        r == spec_year_marker(unparsed_entry@),
{
    let t = trim_str(unparsed_entry);
    let n = t.unicode_len();
    if n != 4 {
        return None;
    }
    let mut i: usize = 0;
    while i < 4
        invariant
            0 <= i <= 4,
            n == t@.len(),
            n == 4,
            t@ == seq_trim(unparsed_entry@),
            forall|j: int| 0 <= j < i ==> is_digit(t@[j]),
        decreases 4 - i,
    {
        if !is_digit_exec(t.get_char(i)) {
            proof {
                assert(!all_digits(t@));
            }
            return None;
        }
        i = i + 1;
    }
    proof {
        lemma_digits_val_bound(t@);
        assert(ten_pow(0) == 1);
        assert(ten_pow(1) == 10);
        assert(ten_pow(2) == 100);
        assert(ten_pow(3) == 1000);
        assert(ten_pow(4) == 10000);
        assert(t@.subrange(0, 4) =~= t@);
    }
    parse_u32_digits(t, 0, 4)
}

/// Classifies a month marker line: reports the month when the entire
/// trimmed line is one of the twelve recognized month names.
pub fn month_regex(unparsed_entry: &str) -> (r: Option<Month>)
    ensures
        r == spec_month_marker(unparsed_entry@),
{
    let t = trim_str(unparsed_entry);
    if str_eq_str(t, "Januar") {
        Some(Month::January)
    } else if str_eq_str(t, "Februar") {
        Some(Month::February)
    } else if str_eq_str(t, "Mars") {
        Some(Month::March)
    } else if str_eq_str(t, "April") {
        Some(Month::April)
    } else if str_eq_str(t, "Mai") {
        Some(Month::May)
    } else if str_eq_str(t, "Juni") {
        Some(Month::June)
    } else if str_eq_str(t, "Juli") {
        Some(Month::July)
    } else if str_eq_str(t, "August") {
        Some(Month::August)
    } else if str_eq_str(t, "September") {
        Some(Month::September)
    } else if str_eq_str(t, "Oktober") {
        Some(Month::October)
    } else if str_eq_str(t, "November") {
        Some(Month::November)
    } else if str_eq_str(t, "Desember") {
        Some(Month::December)
    } else {
        None
    }
}

/// The leading date specification of an event line, ending at the
/// literal `.` terminator: the start date, the end date of a range,
/// and the position just after the `.`.  The four dated forms are
/// distinguished by the character that follows the digit run, exactly
/// as the first matching grammar alternative would pick them; a bare
/// `?` means the date is unknown.  A day number too large for `u32`
/// does not match.
pub open spec fn spec_date_part(s: Seq<char>) -> Option<(Option<u32>, Option<u32>, int)> {
    let e1 = digit_run_end(s, 0);
    if e1 == 0 {
        if s.len() >= 2 && s[0] == '?' && s[1] == '.' {
            Some((None, None, 2))
        } else {
            None
        }
    } else {
        let v1 = digits_val(s.subrange(0, e1));
        if v1 > u32::MAX {
            None
        } else if e1 < s.len() && s[e1] == '.' {
            Some((Some(v1 as u32), None, e1 + 1))
        } else if e1 + 1 < s.len() && s[e1] == '?' && s[e1 + 1] == '.' {
            Some((Some(v1 as u32), None, e1 + 2))
        } else if e1 < s.len() && s[e1] == '-' {
            let e2 = digit_run_end(s, e1 + 1);
            if e2 == e1 + 1 {
                None
            } else {
                let v2 = digits_val(s.subrange(e1 + 1, e2));
                if v2 > u32::MAX {
                    None
                } else if e2 < s.len() && s[e2] == '.' {
                    Some((Some(v1 as u32), Some(v2 as u32), e2 + 1))
                } else if e2 + 1 < s.len() && s[e2] == '?' && s[e2 + 1] == '.' {
                    Some((Some(v1 as u32), Some(v2 as u32), e2 + 2))
                } else {
                    None
                }
            }
        } else {
            None
        }
    }
}

/// An `H.MM` time at position `p`: one or two hour digits, a `.`, and
/// exactly two minute digits, preferring the two-digit hour as the
/// grammar's greedy match does.  Reports the time and the position
/// just after it.
pub open spec fn spec_hhmm(s: Seq<char>, p: int) -> Option<(HourMinute, int)> {
    if p + 2 < s.len() && is_digit(s[p]) && is_digit(s[p + 1]) && s[p + 2] == '.' {
        if p + 5 <= s.len() && is_digit(s[p + 3]) && is_digit(s[p + 4]) {
            Some(
                (
                    HourMinute {
                        hour: (digit_val(s[p]) * 10 + digit_val(s[p + 1])) as u32,
                        minute: (digit_val(s[p + 3]) * 10 + digit_val(s[p + 4])) as u32,
                    },
                    p + 5,
                ),
            )
        } else {
            None
        }
    } else if p + 1 < s.len() && is_digit(s[p]) && s[p + 1] == '.' {
        if p + 4 <= s.len() && is_digit(s[p + 2]) && is_digit(s[p + 3]) {
            Some(
                (
                    HourMinute {
                        hour: digit_val(s[p]) as u32,
                        minute: (digit_val(s[p + 2]) * 10 + digit_val(s[p + 3])) as u32,
                    },
                    p + 4,
                ),
            )
        } else {
            None
        }
    } else {
        None
    }
}

/// The optional bracketed time part at position `p`: `[H.MM]` gives a
/// start time, `[H.MM-H.MM]` a start and an end time, and anything
/// else no time at all (the whole group matches empty, and the rest of
/// the line is ignored).
pub open spec fn spec_time_part(s: Seq<char>, p: int) -> (Option<HourMinute>, Option<
    HourMinute,
>) {
    if p < s.len() && s[p] == '[' {
        match spec_hhmm(s, p + 1) {
            Some((h1, q)) => {
                if q < s.len() && s[q] == ']' {
                    (Some(h1), None)
                } else if q < s.len() && s[q] == '-' {
                    match spec_hhmm(s, q + 1) {
                        Some((h2, q2)) => {
                            if q2 < s.len() && s[q2] == ']' {
                                (Some(h1), Some(h2))
                            } else {
                                (None, None)
                            }
                        },
                        None => (None, None),
                    }
                } else {
                    (None, None)
                }
            },
            None => (None, None),
        }
    } else {
        (None, None)
    }
}

/// The whole event grammar applied to a line under a known year and
/// month: the date part must match for the line to be an event; the
/// description and location are trimmed; a malformed time part leaves
/// the times unset.
pub open spec fn spec_event_entry(s: Seq<char>, year: u32, month: Month) -> Option<EntryModel> {
    match spec_date_part(s) {
        None => None,
        Some((sd, ed, p)) => {
            let de = seek(s, p, desc_stop());
            let (location, tp): (Option<Seq<char>>, int) = if de < s.len() && s[de] == '@' {
                let le = seek(s, de + 1, loc_stop());
                (Some(seq_trim(s.subrange(de + 1, le))), le)
            } else {
                (None, de)
            };
            let (st, et) = spec_time_part(s, tp);
            Some(
                EntryModel {
                    description: seq_trim(s.subrange(p, de)),
                    location,
                    year,
                    month,
                    start_date: sd,
                    end_date: ed,
                    start_time: st,
                    end_time: et,
                },
            )
        },
    }
}

/// Scans the date part of an event line.
fn date_part(s: &str) -> (r: Option<(Option<u32>, Option<u32>, usize)>)
    ensures
        match r {
            Some((sd, ed, p)) => {
                &&& spec_date_part(s@) == Some((sd, ed, p as int))
                &&& 0 < p <= s@.len()
            },
            None => spec_date_part(s@) is None,
        },
{
    let n = s.unicode_len();
    let mut e1: usize = 0;
    while e1 < n && is_digit_exec(s.get_char(e1))
        invariant
            0 <= e1 <= n,
            n == s@.len(),
            forall|j: int| 0 <= j < e1 ==> is_digit(s@[j]),
        decreases n - e1,
    {
        e1 = e1 + 1;
    }
    proof {
        assert(forall|j: int| 0 <= j < e1 ==> !(digit_stop()(s@[j])));
        assert(e1 < n ==> digit_stop()(s@[e1 as int]));
        lemma_seek_unique(s@, 0, digit_stop(), e1 as int);
    }
    if e1 == 0 {
        if n >= 2 && s.get_char(0) == '?' && s.get_char(1) == '.' {
            Some((None, None, 2))
        } else {
            None
        }
    } else {
        let v1 = match parse_u32_digits(s, 0, e1) {
            Some(v) => v,
            None => {
                return None;
            },
        };
        if e1 < n && s.get_char(e1) == '.' {
            Some((Some(v1), None, e1 + 1))
        } else if e1 < n && e1 + 1 < n && s.get_char(e1) == '?' && s.get_char(e1 + 1) == '.' {
            Some((Some(v1), None, e1 + 2))
        } else if e1 < n && s.get_char(e1) == '-' {
            let mut e2: usize = e1 + 1;
            while e2 < n && is_digit_exec(s.get_char(e2))
                invariant
                    e1 + 1 <= e2 <= n,
                    n == s@.len(),
                    forall|j: int| e1 + 1 <= j < e2 ==> is_digit(s@[j]),
                decreases n - e2,
            {
                e2 = e2 + 1;
            }
            proof {
                assert(forall|j: int| e1 + 1 <= j < e2 ==> !(digit_stop()(s@[j])));
                assert(e2 < n ==> digit_stop()(s@[e2 as int]));
                lemma_seek_unique(s@, e1 + 1, digit_stop(), e2 as int);
            }
            if e2 == e1 + 1 {
                return None;
            }
            let v2 = match parse_u32_digits(s, e1 + 1, e2) {
                Some(v) => v,
                None => {
                    return None;
                },
            };
            if e2 < n && s.get_char(e2) == '.' {
                Some((Some(v1), Some(v2), e2 + 1))
            } else if e2 < n && e2 + 1 < n && s.get_char(e2) == '?' && s.get_char(e2 + 1) == '.' {
                Some((Some(v1), Some(v2), e2 + 2))
            } else {
                None
            }
        } else {
            None
        }
    }
}

/// Scans an `H.MM` time at position `p`.
fn hhmm(s: &str, p: usize) -> (r: Option<(HourMinute, usize)>)
    requires
        p <= s@.len(),
    ensures
        match r {
            Some((hm, q)) => spec_hhmm(s@, p as int) == Some((hm, q as int)) && p < q <= s@.len(),
            None => spec_hhmm(s@, p as int) is None,
        },
{
    let n = s.unicode_len();
    if p < n && p + 1 < n && p + 2 < n && is_digit_exec(s.get_char(p)) && is_digit_exec(
        s.get_char(p + 1),
    ) && s.get_char(p + 2) == '.' {
        if p + 3 < n && p + 4 < n && is_digit_exec(s.get_char(p + 3)) && is_digit_exec(
            s.get_char(p + 4),
        ) {
            let hour = ((s.get_char(p) as u32) - 48) * 10 + ((s.get_char(p + 1) as u32) - 48);
            let minute = ((s.get_char(p + 3) as u32) - 48) * 10 + ((s.get_char(p + 4) as u32)
                - 48);
            Some((HourMinute { hour, minute }, p + 5))
        } else {
            None
        }
    } else if p < n && p + 1 < n && is_digit_exec(s.get_char(p)) && s.get_char(p + 1) == '.' {
        if p + 2 < n && p + 3 < n && is_digit_exec(s.get_char(p + 2)) && is_digit_exec(
            s.get_char(p + 3),
        ) {
            let hour = (s.get_char(p) as u32) - 48;
            let minute = ((s.get_char(p + 2) as u32) - 48) * 10 + ((s.get_char(p + 3) as u32)
                - 48);
            Some((HourMinute { hour, minute }, p + 4))
        } else {
            None
        }
    } else {
        None
    }
}

/// Scans the optional bracketed time part at position `p`.
fn time_part(s: &str, p: usize) -> (r: (Option<HourMinute>, Option<HourMinute>))
    requires
        p <= s@.len(),
    ensures
        r == spec_time_part(s@, p as int),
{
    let n = s.unicode_len();
    if p < n && s.get_char(p) == '[' {
        match hhmm(s, p + 1) {
            Some((h1, q)) => {
                if q < n && s.get_char(q) == ']' {
                    (Some(h1), None)
                } else if q < n && s.get_char(q) == '-' {
                    match hhmm(s, q + 1) {
                        Some((h2, q2)) => {
                            if q2 < n && s.get_char(q2) == ']' {
                                (Some(h1), Some(h2))
                            } else {
                                (None, None)
                            }
                        },
                        None => (None, None),
                    }
                } else {
                    (None, None)
                }
            },
            None => (None, None),
        }
    } else {
        (None, None)
    }
}

/// Attempts to extract an event entry from one line, under the active
/// year and month.  Returns `None` exactly where the line does not
/// match the event grammar; marker lines and free commentary never
/// match.
pub fn event_entry_regex(unparsed_entry: &str, year: u32, month: Month) -> (r: Option<Entry>)
    ensures
        match r {
            Some(e) => spec_event_entry(unparsed_entry@, year, month) == Some(e@),
            None => spec_event_entry(unparsed_entry@, year, month) is None,
        },
{
    let s = unparsed_entry;
    let n = s.unicode_len();
    let (sd, ed, p) = match date_part(s) {
        Some(t) => t,
        None => {
            return None;
        },
    };
    let mut de: usize = p;
    while de < n && !(s.get_char(de) == '@' || s.get_char(de) == '[')
        invariant
            p <= de <= n,
            n == s@.len(),
            forall|j: int| p <= j < de ==> !(s@[j] == '@' || s@[j] == '['),
        decreases n - de,
    {
        de = de + 1;
    }
    proof {
        assert(forall|j: int| p <= j < de ==> !(desc_stop()(s@[j])));
        assert(de < n ==> desc_stop()(s@[de as int]));
        lemma_seek_unique(s@, p as int, desc_stop(), de as int);
    }
    let description = String::from_str(trim_str(s.substring_char(p, de)));
    let (location, tp): (Option<String>, usize) = if de < n && s.get_char(de) == '@' {
        let mut le: usize = de + 1;
        while le < n && !(s.get_char(le) == '[')
            invariant
                de + 1 <= le <= n,
                n == s@.len(),
                forall|j: int| de + 1 <= j < le ==> !(s@[j] == '['),
            decreases n - le,
        {
            le = le + 1;
        }
        proof {
            assert(forall|j: int| de + 1 <= j < le ==> !(loc_stop()(s@[j])));
            assert(le < n ==> loc_stop()(s@[le as int]));
            lemma_seek_unique(s@, de + 1, loc_stop(), le as int);
        }
        (Some(String::from_str(trim_str(s.substring_char(de + 1, le)))), le)
    } else {
        (None, de)
    };
    let (start_time, end_time) = time_part(s, tp);
    Some(
        Entry {
            description,
            location,
            year,
            month,
            start_date: sd,
            end_date: ed,
            start_time,
            end_time,
        },
    )
}

/// The `\n`-separated lines of the text from position `i` on, as
/// `str::split` yields them: an empty text is one empty line, and a
/// trailing line break opens a final empty line.
pub open spec fn spec_lines_from(s: Seq<char>, i: int) -> Seq<Seq<char>>
    recommends
        0 <= i <= s.len(),
    decreases s.len() - i,
    via spec_lines_from_dec
{
    let e = seek(s, i, nl_stop());
    if e < s.len() {
        seq![s.subrange(i, e)] + spec_lines_from(s, e + 1)
    } else {
        seq![s.subrange(i, s.len() as int)]
    }
}

#[via_fn]
proof fn spec_lines_from_dec(s: Seq<char>, i: int) {
    lemma_seek_ge(s, i, nl_stop());
}

/// The parser's fold over the lines: each line may update the active
/// year and the active month, and is then offered to the event grammar
/// as soon as both are known; matches are collected in line order.
pub open spec fn spec_parse_fold(
    lines: Seq<Seq<char>>,
    year: Option<u32>,
    month: Option<Month>,
) -> Seq<EntryModel>
    decreases lines.len(),
{
    if lines.len() == 0 {
        Seq::empty()
    } else {
        let l = lines[0];
        let y = match spec_year_marker(l) {
            Some(v) => Some(v),
            None => year,
        };
        let m = match spec_month_marker(l) {
            Some(v) => Some(v),
            None => month,
        };
        let rest = spec_parse_fold(lines.drop_first(), y, m);
        match (y, m) {
            (Some(yv), Some(mv)) => match spec_event_entry(l, yv, mv) {
                Some(ev) => seq![ev] + rest,
                None => rest,
            },
            _ => rest,
        }
    }
}

/// The ordered entries of a whole calendar text, starting with no
/// active year and no active month.
pub open spec fn spec_parse_calendar(text: Seq<char>) -> Seq<EntryModel> {
    spec_parse_fold(spec_lines_from(text, 0), None, None)
}

/// The models of a vector of entries.
pub open spec fn entries_view(s: Seq<Entry>) -> Seq<EntryModel> {
    s.map_values(|e: Entry| e@)
}

/// Parses a whole calendar text into its ordered event entries.
/// The output is a function of the text alone: no state is carried
/// between calls, and unrecognized or malformed lines are skipped, so
/// parsing never fails.
pub fn parse_calendar_file(file: &str) -> (r: Vec<Entry>)
    ensures
        entries_view(r@) == spec_parse_calendar(file@),
{
    let n = file.unicode_len();
    let mut out: Vec<Entry> = Vec::new();
    let mut year: Option<u32> = None;
    let mut month: Option<Month> = None;
    let mut pos: usize = 0;
    loop
        invariant_except_break
            spec_parse_calendar(file@) == entries_view(out@) + spec_parse_fold(
                spec_lines_from(file@, pos as int),
                year,
                month,
            ),
        invariant
            pos <= n,
            n == file@.len(),
        ensures
            spec_parse_calendar(file@) == entries_view(out@),
        decreases n - pos,
    {
        let mut e: usize = pos;
        while e < n && !(file.get_char(e) == '\n')
            invariant
                pos <= e <= n,
                n == file@.len(),
                forall|j: int| pos <= j < e ==> !(file@[j] == '\n'),
            decreases n - e,
        {
            e = e + 1;
        }
        proof {
            assert(forall|j: int| pos <= j < e ==> !(nl_stop()(file@[j])));
            assert(e < n ==> nl_stop()(file@[e as int]));
            lemma_seek_unique(file@, pos as int, nl_stop(), e as int);
        }
        let line = file.substring_char(pos, e);
        let ghost lines = spec_lines_from(file@, pos as int);
        let ghost year0 = year;
        let ghost month0 = month;
        proof {
            if e < n {
                assert(lines == seq![line@] + spec_lines_from(file@, e + 1));
            } else {
                assert(lines == seq![line@]);
            }
            assert(lines[0] == line@);
            if e < n {
                assert(lines.drop_first() =~= spec_lines_from(file@, e + 1));
            } else {
                assert(lines.drop_first() =~= Seq::<Seq<char>>::empty());
            }
        }
        match year_regex(line) {
            Some(y) => {
                year = Some(y);
            },
            None => {},
        }
        match month_regex(line) {
            Some(m) => {
                month = Some(m);
            },
            None => {},
        }
        let ghost produced = entries_view(out@);
        match (year, month) {
            (Some(yv), Some(mv)) => {
                match event_entry_regex(line, yv, mv) {
                    Some(entry) => {
                        proof {
                            assert(entries_view(out@.push(entry)) =~= entries_view(out@).push(
                                entry@,
                            ));
                        }
                        out.push(entry);
                    },
                    None => {},
                }
            },
            _ => {},
        }
        proof {
            let rest = spec_parse_fold(lines.drop_first(), year, month);
            assert(spec_parse_fold(lines, year0, month0) == match (year, month) {
                (Some(yv), Some(mv)) => match spec_event_entry(line@, yv, mv) {
                    Some(ev) => seq![ev] + rest,
                    None => rest,
                },
                _ => rest,
            });
            assert(entries_view(out@) + rest =~= produced + spec_parse_fold(
                lines,
                year0,
                month0,
            ));
        }
        if e == n {
            proof {
                assert(spec_parse_fold(lines.drop_first(), year, month) == Seq::<
                    EntryModel,
                >::empty());
                assert(entries_view(out@) + Seq::<EntryModel>::empty() =~= entries_view(out@));
            }
            break ;
        }
        pos = e + 1;
    }
    out
}

/// A pure marker line never matches the event grammar, even when
/// handed to it directly: the grammar demands a digit or `?` at the
/// very start and a `.` terminator, which a trimmed four-digit year or
/// a month name never provides.
pub proof fn lemma_marker_not_event(l: Seq<char>, year: u32, month: Month)
    requires
        spec_year_marker(l) is Some || spec_month_marker(l) is Some,
    ensures
        spec_event_entry(l, year, month) is None,
{
    let t = seq_trim(l);
    let (a, b) = crate::chars::lemma_seq_trim_structure(l);
    if spec_year_marker(l) is Some {
        assert(t.len() == 4 && all_digits(t));
        if a > 0 {
            assert(is_space(l[0]));
            assert(!is_digit(l[0]));
            lemma_seek_unique(l, 0, digit_stop(), 0);
            assert(l[0] != '?');
        } else {
            assert(forall|j: int| 0 <= j < 4 ==> l[j] == t[j] && is_digit(l[j]));
            assert(b == 4);
            assert(4 < l.len() ==> is_space(l[4]) && !is_digit(l[4]));
            lemma_seek_unique(l, 0, digit_stop(), 4);
            assert(4 < l.len() ==> l[4] != '.' && l[4] != '?' && l[4] != '-');
        }
    } else {
        reveal_strlit("Januar");
        reveal_strlit("Februar");
        reveal_strlit("Mars");
        reveal_strlit("April");
        reveal_strlit("Mai");
        reveal_strlit("Juni");
        reveal_strlit("Juli");
        reveal_strlit("August");
        reveal_strlit("September");
        reveal_strlit("Oktober");
        reveal_strlit("November");
        reveal_strlit("Desember");
        assert(t.len() > 0);
        assert(!is_digit(t[0]) && t[0] != '?');
        if a > 0 {
            assert(is_space(l[0]));
            assert(!is_digit(l[0]));
            lemma_seek_unique(l, 0, digit_stop(), 0);
            assert(l[0] != '?');
        } else {
            assert(l[0] == t[0]);
            lemma_seek_unique(l, 0, digit_stop(), 0);
        }
    }
}

/// With no year marker anywhere, no entry is ever produced, whatever
/// month markers say.
proof fn lemma_fold_no_year(lines: Seq<Seq<char>>, month: Option<Month>)
    requires
        forall|i: int| 0 <= i < lines.len() ==> spec_year_marker(#[trigger] lines[i]) is None,
    ensures
        spec_parse_fold(lines, None, month) == Seq::<EntryModel>::empty(),
    decreases lines.len(),
{
    if lines.len() > 0 {
        assert(forall|i: int|
            0 <= i < lines.drop_first().len() ==> spec_year_marker(
                #[trigger] lines.drop_first()[i],
            ) is None);
        let m = match spec_month_marker(lines[0]) {
            Some(v) => Some(v),
            None => month,
        };
        lemma_fold_no_year(lines.drop_first(), m);
    }
}

/// A text with no year or month marker lines parses to the empty
/// sequence of entries.
pub proof fn lemma_no_markers_no_entries(text: Seq<char>)
    requires
        forall|i: int|
            0 <= i < spec_lines_from(text, 0).len() ==> spec_year_marker(
                #[trigger] spec_lines_from(text, 0)[i],
            ) is None && spec_month_marker(spec_lines_from(text, 0)[i]) is None,
    ensures
        spec_parse_calendar(text) == Seq::<EntryModel>::empty(),
{
    lemma_fold_no_year(spec_lines_from(text, 0), None);
}

/// Parsing is a pure function of the text: equal texts parse to equal
/// entry sequences, with no hidden state across calls, so re-parsing
/// the same text always yields the same output.
pub proof fn lemma_parse_deterministic(text1: Seq<char>, text2: Seq<char>)
    requires
        text1 == text2,
    ensures
        spec_parse_calendar(text1) == spec_parse_calendar(text2),
{
}

} // verus!
