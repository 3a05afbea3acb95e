use cal_rem::parser::{event_entry_regex, month_regex, parse_calendar_file, year_regex};
use cal_rem::{HourMinute, Month};

#[test]
fn event_parsing_test() {
    let event = event_entry_regex(
        "10. Event with start time, end time, and location @ Place A [18.30-20.00]",
        2020,
        Month::May,
    )
    .unwrap();
    assert_eq!(10, event.start_date.unwrap());
    assert!(event.end_date.is_none());
    assert_eq!("Event with start time, end time, and location", event.description);
    assert_eq!("Place A", event.location.unwrap());
    assert_eq!(HourMinute { hour: 18, minute: 30 }, event.start_time.unwrap());
    assert_eq!(HourMinute { hour: 20, minute: 00 }, event.end_time.unwrap());

    let event = event_entry_regex(
        "11. Event with start time and location @ Place B [19.30]",
        2020,
        Month::May,
    )
    .unwrap();
    assert_eq!(11, event.start_date.unwrap());
    assert!(event.end_date.is_none());
    assert_eq!("Event with start time and location", event.description);
    assert_eq!("Place B", event.location.unwrap());
    assert_eq!(HourMinute { hour: 19, minute: 30 }, event.start_time.unwrap());
    assert!(event.end_time.is_none());

    let event = event_entry_regex(
        "17. Event with start time and no location [10.00]",
        2020,
        Month::May,
    )
    .unwrap();
    assert_eq!(17, event.start_date.unwrap());
    assert!(event.end_date.is_none());
    assert_eq!("Event with start time and no location", event.description);
    assert!(event.location.is_none());
    assert_eq!(HourMinute { hour: 10, minute: 0 }, event.start_time.unwrap());
    assert!(event.end_time.is_none());

    let event = event_entry_regex("24?. Event with uncertain date", 2020, Month::May).unwrap();
    assert_eq!(24, event.start_date.unwrap());
    assert!(event.end_date.is_none());
    assert_eq!("Event with uncertain date", event.description);
    assert!(event.location.is_none());
    assert!(event.start_time.is_none());
    assert!(event.end_time.is_none());

    let event = event_entry_regex(
        "5-11. Multiple day event with start time and location @ Place C [11.00]",
        2020,
        Month::July,
    )
    .unwrap();
    assert_eq!(5, event.start_date.unwrap());
    assert_eq!(11, event.end_date.unwrap());
    assert_eq!("Multiple day event with start time and location", event.description);
    assert_eq!("Place C", event.location.unwrap());
    assert_eq!(HourMinute { hour: 11, minute: 0 }, event.start_time.unwrap());
    assert!(event.end_time.is_none());

    let event = event_entry_regex(
        "?. Event with unknown date (while stile belonging to a month)",
        2020,
        Month::October,
    )
    .unwrap();
    assert!(event.start_date.is_none());
    assert!(event.end_date.is_none());
    assert_eq!("Event with unknown date (while stile belonging to a month)", event.description);
    assert!(event.location.is_none());
    assert!(event.start_time.is_none());
    assert!(event.end_time.is_none());

    let event = event_entry_regex("Some text that is not interpreted as an event.", 2020, Month::May);
    assert!(event.is_none());

    // A year marker is not an event
    let event = event_entry_regex("2021", 2020, Month::May);
    assert!(event.is_none());

    // A month marker is not an event
    let event = event_entry_regex("Mai", 2020, Month::April);
    assert!(event.is_none());
}

#[test]
fn event_with_location_and_time_range() {
    let event = event_entry_regex("10. Event @ Place A [18.30-20.00]", 2020, Month::May).unwrap();
    assert_eq!(Some(10), event.start_date);
    assert_eq!(None, event.end_date);
    assert_eq!("Event", event.description);
    assert_eq!(Some("Place A".to_string()), event.location);
    assert_eq!(Some(HourMinute { hour: 18, minute: 30 }), event.start_time);
    assert_eq!(Some(HourMinute { hour: 20, minute: 0 }), event.end_time);
    assert_eq!(2020, event.year);
    assert_eq!(Month::May, event.month);
}

#[test]
fn multi_day_event_with_single_time() {
    let event = event_entry_regex("5-11. Multi @ Place C [11.00]", 2020, Month::July).unwrap();
    assert_eq!(Some(5), event.start_date);
    assert_eq!(Some(11), event.end_date);
    assert_eq!("Multi", event.description);
    assert_eq!(Some("Place C".to_string()), event.location);
    assert_eq!(Some(HourMinute { hour: 11, minute: 0 }), event.start_time);
    assert_eq!(None, event.end_time);
}

#[test]
fn uncertain_date_collapses_to_plain_date() {
    let event = event_entry_regex("24?. Uncertain date", 2020, Month::May).unwrap();
    assert_eq!(Some(24), event.start_date);
    assert_eq!(None, event.end_date);
    assert_eq!("Uncertain date", event.description);
}

#[test]
fn unknown_date_has_no_dates() {
    let event = event_entry_regex("?. Unknown date", 2020, Month::October).unwrap();
    assert_eq!(None, event.start_date);
    assert_eq!(None, event.end_date);
    assert_eq!("Unknown date", event.description);
}

#[test]
fn uncertain_range_parses_both_days() {
    let event = event_entry_regex("5-11?. Maybe a week", 2021, Month::March).unwrap();
    assert_eq!(Some(5), event.start_date);
    assert_eq!(Some(11), event.end_date);
    assert_eq!("Maybe a week", event.description);
}

#[test]
fn malformed_time_part_is_ignored() {
    // A minute must be exactly two digits: the bracket group matches
    // empty and the rest of the line is ignored.
    let event = event_entry_regex("3. Short [18.3]", 2020, Month::May).unwrap();
    assert_eq!(Some(3), event.start_date);
    assert_eq!("Short", event.description);
    assert_eq!(None, event.start_time);
    assert_eq!(None, event.end_time);
}

#[test]
fn absurd_day_number_does_not_match() {
    // A day number beyond u32 leaves the line unmatched instead of
    // failing the parse.
    assert!(event_entry_regex("99999999999999. Too far ahead", 2020, Month::May).is_none());
}

#[test]
fn year_and_month_markers() {
    assert_eq!(Some(2020), year_regex("2020"));
    assert_eq!(Some(2021), year_regex("2021  "));
    assert_eq!(Some(1999), year_regex("  1999  "));
    assert_eq!(None, year_regex("202"));
    assert_eq!(None, year_regex("20 20"));
    assert_eq!(None, year_regex("20201"));
    assert_eq!(None, year_regex("Mai"));
    assert_eq!(Some(Month::May), month_regex("Mai"));
    assert_eq!(Some(Month::May), month_regex("  Mai  "));
    assert_eq!(Some(Month::January), month_regex("Januar"));
    assert_eq!(Some(Month::December), month_regex("Desember"));
    assert_eq!(None, month_regex("May"));
    assert_eq!(None, month_regex("2020"));
    assert_eq!(None, month_regex("Maii"));
}

#[test]
fn parse_without_markers_is_empty() {
    let text = "10. Event one [18.30]\nSome prose\n?. Unknown\n";
    assert!(parse_calendar_file(text).is_empty());
    assert!(parse_calendar_file("").is_empty());
}

#[test]
fn parse_without_month_marker_is_empty() {
    let text = "2020\n10. Event one [18.30]\n";
    assert!(parse_calendar_file(text).is_empty());
}

#[test]
fn parse_is_idempotent() {
    let text = "2020\nMai\n10. Event one [18.30]\n11. Event two @ There\nJuni\n1. Event three\n";
    let first = parse_calendar_file(text);
    let second = parse_calendar_file(text);
    assert_eq!(first, second);
    assert_eq!(3, first.len());
}

#[test]
fn parse_carries_markers_forward() {
    let text = "2020\nMai\n10. In May\nJuni\n2. In June\n2021\n3. Next year\n";
    let entries = parse_calendar_file(text);
    assert_eq!(3, entries.len());
    assert_eq!(2020, entries[0].year);
    assert_eq!(Month::May, entries[0].month);
    assert_eq!("In May", entries[0].description);
    assert_eq!(2020, entries[1].year);
    assert_eq!(Month::June, entries[1].month);
    assert_eq!(2021, entries[2].year);
    assert_eq!(Month::June, entries[2].month);
}

#[test]
fn marker_lines_yield_no_entries() {
    let text = "2020\nMai\n2021\nJuni\n";
    assert!(parse_calendar_file(text).is_empty());
}
