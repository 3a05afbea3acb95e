//! Presentation helpers: the date, time and location texts of an
//! entry, the month and weekday names, and the selection of entries
//! still ahead of a given instant.

use vstd::prelude::*;
use vstd::string::*;

use crate::chars::{dec_str, pad2, u32_to_pad2, u64_to_dec};
use crate::parser::entries_view;
use crate::shared::{spec_oslo_instant, Entry, EntryModel, Month};

verus! {

/// An entry is still ahead when its event instant exists and lies
/// less than four hours into the past.
pub open spec fn future_pred(now: i64) -> spec_fn(EntryModel) -> bool {
    |e: EntryModel|
        match spec_oslo_instant(e) {
            Some(t) => now - 4 * 3600 < t,
            None => false,
        }
}

/// Keeps the entries whose event instant is at most four hours old,
/// in their original order.  An entry with no constructible instant
/// is dropped.
pub fn future_calendar_entries(entries: &Vec<Entry>, now: i64) -> (r: Vec<Entry>)
    ensures
        entries_view(r@) == entries_view(entries@).filter(future_pred(now)),
{
    let ghost ev = entries_view(entries@);
    let mut out: Vec<Entry> = Vec::new();
    let mut i: usize = 0;
    proof {
        reveal(Seq::filter);
    }
    while i < entries.len()
        invariant
            0 <= i <= entries@.len(),
            ev == entries_view(entries@),
            entries_view(out@) == ev.subrange(0, i as int).filter(future_pred(now)),
        decreases entries@.len() - i,
    {
        let e = &entries[i];
        proof {
            reveal(Seq::filter);
            let pre = ev.subrange(0, i as int);
            let nxt = ev.subrange(0, i + 1);
            assert(nxt.drop_last() =~= pre);
            assert(nxt.last() == e@);
        }
        let keep: bool = match e.get_oslo_date_time() {
            Some(t) => now < t + 14400,
            None => false,
        };
        if keep {
            let ghost out0 = out@;
            let kept = Entry {
                description: e.description.clone(),
                location: match &e.location {
                    Some(l) => Some(l.clone()),
                    None => None,
                },
                year: e.year,
                month: e.month,
                start_date: e.start_date,
                end_date: e.end_date,
                start_time: e.start_time,
                end_time: e.end_time,
            };
            proof {
                assert(kept@ == e@);
                assert(entries_view(out0.push(kept)) =~= entries_view(out0).push(e@));
            }
            out.push(kept);
        }
        i = i + 1;
    }
    proof {
        assert(ev.subrange(0, entries@.len() as int) =~= ev);
    }
    out
}

/// The date text of an entry: `start`, `start-end` for a range, and
/// empty where the date is unknown.
pub open spec fn spec_date_text(e: EntryModel) -> Seq<char> {
    match (e.start_date, e.end_date) {
        (Some(a), Some(b)) => dec_str(a as nat) + "-"@ + dec_str(b as nat),
        (Some(a), None) => dec_str(a as nat),
        (None, _) => Seq::empty(),
    }
}

/// Renders the date text of an entry.
pub fn date(entry: &Entry) -> (r: String)
    ensures
        r@ == spec_date_text(entry@),
{
    match (&entry.start_date, &entry.end_date) {
        (Some(a), Some(b)) => {
            proof {
                reveal_strlit("-");
            }
            let mut r = u64_to_dec(*a as u64);
            r.append("-");
            r.append(u64_to_dec(*b as u64).as_str());
            proof {
                assert(r@ =~= spec_date_text(entry@));
            }
            r
        },
        (Some(a), None) => u64_to_dec(*a as u64),
        (None, _) => String::new(),
    }
}

/// The time text of an entry: `HH.MM`, `HH.MM-HH.MM` with an end
/// time, and empty where no time was given.
pub open spec fn spec_time_text(e: EntryModel) -> Seq<char> {
    match (e.start_time, e.end_time) {
        (Some(s), Some(t)) => pad2(s.hour as nat) + "."@ + pad2(s.minute as nat) + "-"@ + pad2(
            t.hour as nat,
        ) + "."@ + pad2(t.minute as nat),
        (Some(s), None) => pad2(s.hour as nat) + "."@ + pad2(s.minute as nat),
        (None, _) => Seq::empty(),
    }
}

/// Renders the time text of an entry.
pub fn time(entry: &Entry) -> (r: String)
    ensures
        r@ == spec_time_text(entry@),
{
    match (&entry.start_time, &entry.end_time) {
        (Some(s), Some(t)) => {
            proof {
                reveal_strlit(".");
                reveal_strlit("-");
            }
            let mut r = u32_to_pad2(s.hour);
            r.append(".");
            r.append(u32_to_pad2(s.minute).as_str());
            r.append("-");
            r.append(u32_to_pad2(t.hour).as_str());
            r.append(".");
            r.append(u32_to_pad2(t.minute).as_str());
            proof {
                assert(r@ =~= spec_time_text(entry@));
            }
            r
        },
        (Some(s), None) => {
            proof {
                reveal_strlit(".");
            }
            let mut r = u32_to_pad2(s.hour);
            r.append(".");
            r.append(u32_to_pad2(s.minute).as_str());
            proof {
                assert(r@ =~= spec_time_text(entry@));
            }
            r
        },
        (None, _) => String::new(),
    }
}

/// The location text of an entry: its location, or empty.
pub open spec fn spec_location_text(e: EntryModel) -> Seq<char> {
    match e.location {
        Some(l) => l,
        None => Seq::empty(),
    }
}

/// Renders the location text of an entry.
pub fn location(entry: &Entry) -> (r: String)
    ensures
        r@ == spec_location_text(entry@),
{
    match &entry.location {
        Some(l) => l.clone(),
        None => String::new(),
    }
}

/// The recognized name of a month, as the marker lines write it.
pub open spec fn spec_month_name(m: Month) -> Seq<char> {
    match m {
        Month::January => "Januar"@,
        Month::February => "Februar"@,
        Month::March => "Mars"@,
        Month::April => "April"@,
        Month::May => "Mai"@,
        Month::June => "Juni"@,
        Month::July => "Juli"@,
        Month::August => "August"@,
        Month::September => "September"@,
        Month::October => "Oktober"@,
        Month::November => "November"@,
        Month::December => "Desember"@,
    }
}

/// The display name of a month.
pub fn month_name(month: Month) -> (r: &'static str)
    ensures
        r@ == spec_month_name(month),
{
    match month {
        Month::January => "Januar",
        Month::February => "Februar",
        Month::March => "Mars",
        Month::April => "April",
        Month::May => "Mai",
        Month::June => "Juni",
        Month::July => "Juli",
        Month::August => "August",
        Month::September => "September",
        Month::October => "Oktober",
        Month::November => "November",
        Month::December => "Desember",
    }
}

/// The month name for a zero-based month number, as the browser's
/// clock reports it.
pub open spec fn spec_js_month_name(month: u32) -> Seq<char> {
    if month == 0 {
        "Januar"@
    } else if month == 1 {
        "Februar"@
    } else if month == 2 {
        "Mars"@
    } else if month == 3 {
        "April"@
    } else if month == 4 {
        "Mai"@
    } else if month == 5 {
        "Juni"@
    } else if month == 6 {
        "Juli"@
    } else if month == 7 {
        "August"@
    } else if month == 8 {
        "September"@
    } else if month == 9 {
        "Oktober"@
    } else if month == 10 {
        "November"@
    } else if month == 11 {
        "Desember"@
    } else {
        "error"@
    }
}

/// The month name for a zero-based month number.
pub fn month_name_from_js_month(month: u32) -> (r: &'static str)
    ensures
        r@ == spec_js_month_name(month),
{
    match month {
        0 => "Januar",
        1 => "Februar",
        2 => "Mars",
        3 => "April",
        4 => "Mai",
        5 => "Juni",
        6 => "Juli",
        7 => "August",
        8 => "September",
        9 => "Oktober",
        10 => "November",
        11 => "Desember",
        _ => "error",
    }
}

/// The short weekday name for a weekday number with Sunday as zero,
/// as the browser's clock reports it.
pub open spec fn spec_js_day_name(weekday: u32) -> Seq<char> {
    if weekday == 1 {
        "man"@
    } else if weekday == 2 {
        "tir"@
    } else if weekday == 3 {
        "ons"@
    } else if weekday == 4 {
        "tor"@
    } else if weekday == 5 {
        "fre"@
    } else if weekday == 6 {
        "lør"@
    } else if weekday == 0 {
        "søn"@
    } else {
        "error"@
    }
}

/// The short weekday name for a weekday number with Sunday as zero.
pub fn short_day_name_from_js_day(weekday: u32) -> (r: &'static str)
    ensures
        r@ == spec_js_day_name(weekday),
{
    match weekday {
        1 => "man",
        2 => "tir",
        3 => "ons",
        4 => "tor",
        5 => "fre",
        6 => "lør",
        0 => "søn",
        _ => "error",
    }
}

/// The heading text for a day: short weekday name, day of month and
/// month name, from the values the clock reports.
pub open spec fn spec_date_description(weekday: u32, date: u32, month: u32) -> Seq<char> {
    spec_js_day_name(weekday) + " "@ + dec_str(date as nat) + ". "@ + spec_js_month_name(month)
}

/// Renders the heading text for a day from the clock's weekday, day
/// of month and zero-based month number.
pub fn date_description(weekday: u32, date: u32, month: u32) -> (r: String)
    ensures
        r@ == spec_date_description(weekday, date, month),
{
    proof {
        reveal_strlit(" ");
        reveal_strlit(". ");
    }
    let mut r = String::from_str(short_day_name_from_js_day(weekday));
    r.append(" ");
    r.append(u64_to_dec(date as u64).as_str());
    r.append(". ");
    r.append(month_name_from_js_month(month));
    proof {
        assert(r@ =~= spec_date_description(weekday, date, month));
    }
    r
}

} // verus!
