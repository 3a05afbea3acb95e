//! The data model shared by the parser, the notifier and the
//! presentation helpers: times of day, months, calendar entries and
//! to-do items, together with the entry's event instant in the fixed
//! Europe/Oslo time zone and its rendered reminder message.

use vstd::prelude::*;
use vstd::string::*;

use crate::chars::{dec_str, pad2, u64_to_dec, u32_to_pad2};

verus! {

/// A wall-clock time of day: an hour and a minute, as written in the
/// calendar text.
#[derive(Debug, Eq, PartialEq, Clone, Copy, Structural)]
pub struct HourMinute {
    pub hour: u32,
    pub minute: u32,
}

/// One of the twelve calendar months.
#[derive(Debug, Eq, PartialEq, Clone, Copy, Structural)]
pub enum Month {
    January,
    February,
    March,
    April,
    May,
    June,
    July,
    August,
    September,
    October,
    November,
    December,
}

/// The number of `month` in the calendar, from 1 for January to 12 for
/// December.
pub open spec fn spec_month_to_num(month: Month) -> u32 {
    match month {
        Month::January => 1,
        Month::February => 2,
        Month::March => 3,
        Month::April => 4,
        Month::May => 5,
        Month::June => 6,
        Month::July => 7,
        Month::August => 8,
        Month::September => 9,
        Month::October => 10,
        Month::November => 11,
        Month::December => 12,
    }
}

/// Maps a month to its 1-based number, used when building a date in the
/// event's time zone.
pub fn month_to_num(month: Month) -> (n: u32)
    ensures
        n == spec_month_to_num(month),
{
    match month {
        Month::January => 1,
        Month::February => 2,
        Month::March => 3,
        Month::April => 4,
        Month::May => 5,
        Month::June => 6,
        Month::July => 7,
        Month::August => 8,
        Month::September => 9,
        Month::October => 10,
        Month::November => 11,
        Month::December => 12,
    }
}

/// The variant name of a month, as its `Debug` form prints it.
pub open spec fn month_debug(m: Month) -> Seq<char> {
    match m {
        Month::January => "January"@,
        Month::February => "February"@,
        Month::March => "March"@,
        Month::April => "April"@,
        Month::May => "May"@,
        Month::June => "June"@,
        Month::July => "July"@,
        Month::August => "August"@,
        Month::September => "September"@,
        Month::October => "October"@,
        Month::November => "November"@,
        Month::December => "December"@,
    }
}

/// The variant name of a month.
pub fn month_debug_str(m: Month) -> (r: &'static str)
    ensures
        r@ == month_debug(m),
{
    match m {
        Month::January => "January",
        Month::February => "February",
        Month::March => "March",
        Month::April => "April",
        Month::May => "May",
        Month::June => "June",
        Month::July => "July",
        Month::August => "August",
        Month::September => "September",
        Month::October => "October",
        Month::November => "November",
        Month::December => "December",
    }
}

/// One parsed calendar event.  The year and month are inherited from
/// the marker lines seen before the event line; the remaining fields
/// come from the event line itself, and stay unset where the line did
/// not mention them.
#[derive(Debug, Eq, PartialEq, Clone)]
pub struct Entry {
    pub description: String,
    pub location: Option<String>,
    pub year: u32,
    pub month: Month,
    pub start_date: Option<u32>,
    pub end_date: Option<u32>,
    pub start_time: Option<HourMinute>,
    pub end_time: Option<HourMinute>,
}

/// The mathematical model of an [`Entry`]: the same fields with text as
/// character sequences.
pub struct EntryModel {
    pub description: Seq<char>,
    pub location: Option<Seq<char>>,
    pub year: u32,
    pub month: Month,
    pub start_date: Option<u32>,
    pub end_date: Option<u32>,
    pub start_time: Option<HourMinute>,
    pub end_time: Option<HourMinute>,
}

impl View for Entry {
    type V = EntryModel;

    open spec fn view(&self) -> EntryModel {
        EntryModel {
            description: self.description@,
            location: match self.location {
                Some(l) => Some(l@),
                None => None,
            },
            year: self.year,
            month: self.month,
            start_date: self.start_date,
            end_date: self.end_date,
            start_time: self.start_time,
            end_time: self.end_time,
        }
    }
}

/// A to-do item: its text, and whether it is finished.
#[derive(Debug, Eq, PartialEq, Clone)]
pub struct Todo {
    pub description: String,
    pub done: bool,
}

/// The mathematical model of a [`Todo`]: its text as a character
/// sequence.
pub struct TodoModel {
    pub description: Seq<char>,
    pub done: bool,
}

impl View for Todo {
    type V = TodoModel;

    open spec fn view(&self) -> TodoModel {
        TodoModel { description: self.description@, done: self.done }
    }
}

/// A query that a client can send to the service.
pub enum Command {
    GetTodoEntries,
    GetCalendarEvents,
}

/// The body of a client request: a command and its parameters.
pub struct RequestBody {
    pub command: Command,
    pub parameters: String,
}

/// The epoch second at which the Europe/Oslo wall clock shows the given
/// year, month (1-12), day, hour and minute, where that local time
/// exists and is unambiguous; `None` otherwise.  A fixed function of
/// its arguments: the zone's offset table is compiled into the library.
pub uninterp spec fn oslo_epoch_of(year: int, month: int, day: int, hour: int, minute: int) -> Option<
    i64,
>;

/// Relies on chrono's `TimeZone::with_ymd_and_hms` over chrono_tz's
/// compiled Europe/Oslo table, and on `DateTime::timestamp`; the result
/// is `None` exactly when the local datetime is invalid, nonexistent or
/// ambiguous in that zone.  The bound restates chrono's documented
/// datetime range of about plus or minus 262,000 years.
#[verifier::external_body]
fn oslo_epoch(year: u32, month: u32, day: u32, hour: u32, minute: u32) -> (r: Option<i64>)
    ensures
        r == oslo_epoch_of(year as int, month as int, day as int, hour as int, minute as int),
        r matches Some(t) ==> -10_000_000_000_000 <= t <= 10_000_000_000_000,
{
    match chrono::TimeZone::with_ymd_and_hms(
        &chrono_tz::Europe::Oslo,
        year as i32,
        month,
        day,
        hour,
        minute,
        0,
    ) {
        chrono::LocalResult::Single(dt) => Some(dt.timestamp()),
        _ => None,
    }
}

/// The day of month the event instant is built from: the start date, or
/// day 1 where the date is unknown.
pub open spec fn spec_event_day(e: EntryModel) -> u32 {
    match e.start_date {
        Some(d) => d,
        None => 1,
    }
}

/// The hour the event instant is built from: the start time's hour, or
/// 08 where no time was given.
pub open spec fn spec_event_hour(e: EntryModel) -> u32 {
    match e.start_time {
        Some(t) => t.hour,
        None => 8,
    }
}

/// The minute the event instant is built from: the start time's minute,
/// or 00 where no time was given.
pub open spec fn spec_event_minute(e: EntryModel) -> u32 {
    match e.start_time {
        Some(t) => t.minute,
        None => 0,
    }
}

/// The event's absolute instant: its local Oslo wall-clock date and
/// time, taken to epoch seconds.
pub open spec fn spec_oslo_instant(e: EntryModel) -> Option<i64> {
    oslo_epoch_of(
        e.year as int,
        spec_month_to_num(e.month) as int,
        spec_event_day(e) as int,
        spec_event_hour(e) as int,
        spec_event_minute(e) as int,
    )
}

/// The rendered reminder text of an entry: month name, then the date or
/// a "no date" note, then the time when one was given, then the free
/// description.
pub open spec fn spec_create_message(e: EntryModel) -> Seq<char> {
    month_debug(e.month) + (match e.start_date {
        Some(d) => " "@ + dec_str(d as nat) + "."@,
        None => " no date"@,
    }) + (match e.start_time {
        Some(t) => ", "@ + pad2(t.hour as nat) + "."@ + pad2(t.minute as nat),
        None => Seq::<char>::empty(),
    }) + ": "@ + e.description
}

impl Entry {
    /// Renders the human-readable reminder text for this entry.
    pub fn create_message(&self) -> (r: String)
        ensures
            r@ == spec_create_message(self@),
    {
        let mut r = String::from_str(month_debug_str(self.month));
        match &self.start_date {
            Some(d) => {
                proof {
                    reveal_strlit(" ");
                    reveal_strlit(".");
                }
                r.append(" ");
                r.append(u64_to_dec(*d as u64).as_str());
                r.append(".");
            },
            None => {
                proof {
                    reveal_strlit(" no date");
                }
                r.append(" no date");
            },
        }
        match &self.start_time {
            Some(t) => {
                proof {
                    reveal_strlit(", ");
                    reveal_strlit(".");
                }
                r.append(", ");
                r.append(u32_to_pad2(t.hour).as_str());
                r.append(".");
                r.append(u32_to_pad2(t.minute).as_str());
            },
            None => {},
        }
        proof {
            reveal_strlit(": ");
        }
        r.append(": ");
        r.append(self.description.as_str());
        proof {
            assert(r@ =~= spec_create_message(self@));
        }
        r
    }

    /// The event's absolute instant in epoch seconds, built from the
    /// entry's fields in the Europe/Oslo zone; `None` where no such
    /// local datetime exists.
    pub fn get_oslo_date_time(&self) -> (r: Option<i64>)
        ensures
            r == spec_oslo_instant(self@),
            r matches Some(t) ==> -10_000_000_000_000 <= t <= 10_000_000_000_000,
    {
        let day: u32 = match &self.start_date {
            Some(d) => *d,
            None => 1,
        };
        let hour: u32 = match &self.start_time {
            Some(t) => t.hour,
            None => 8,
        };
        let minute: u32 = match &self.start_time {
            Some(t) => t.minute,
            None => 0,
        };
        oslo_epoch(self.year, month_to_num(self.month), day, hour, minute)
    }
}

} // verus!
