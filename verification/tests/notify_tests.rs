use cal_rem::notify::{
    create_notifications_from_calendar, get_notifications_within_time_window, Notification,
    utc_notification_time_24h_notice, utc_notification_time_medium_notice,
    utc_notification_time_short_notice,
};
use cal_rem::{Entry, HourMinute, Month};
use chrono::TimeZone;

fn entry(month: Month, day: u32, time: Option<HourMinute>) -> Entry {
    Entry {
        description: "Event".to_string(),
        location: None,
        year: 2020,
        month,
        start_date: Some(day),
        end_date: None,
        start_time: time,
        end_time: None,
    }
}

fn oslo_epoch(y: i32, mo: u32, d: u32, h: u32, mi: u32) -> i64 {
    chrono_tz::Europe::Oslo
        .with_ymd_and_hms(y, mo, d, h, mi, 0)
        .single()
        .unwrap()
        .timestamp()
}

#[test]
fn oslo_instant_matches_the_zone() {
    let e = entry(Month::May, 10, Some(HourMinute { hour: 18, minute: 30 }));
    // 2020-05-10 18:30 in Oslo is UTC+2: 16:30 UTC.
    assert_eq!(Some(1589128200), e.get_oslo_date_time());
    assert_eq!(Some(oslo_epoch(2020, 5, 10, 18, 30)), e.get_oslo_date_time());
}

#[test]
fn oslo_instant_defaults() {
    // No date means day 1; no time means 08:00 local.
    let e = Entry {
        description: "Event".to_string(),
        location: None,
        year: 2020,
        month: Month::May,
        start_date: None,
        end_date: None,
        start_time: None,
        end_time: None,
    };
    assert_eq!(Some(oslo_epoch(2020, 5, 1, 8, 0)), e.get_oslo_date_time());
}

#[test]
fn oslo_instant_rejects_impossible_dates() {
    let e = entry(Month::February, 30, None);
    assert_eq!(None, e.get_oslo_date_time());
}

#[test]
fn medium_notice_early_event_fires_previous_evening() {
    // An event at 03:15 local: the medium notice lands at 23:00 local
    // on the previous calendar day, not two hours before.
    let t = entry(Month::May, 10, Some(HourMinute { hour: 3, minute: 15 }))
        .get_oslo_date_time()
        .unwrap();
    let medium = utc_notification_time_medium_notice(t, 3, 15);
    assert_eq!(oslo_epoch(2020, 5, 9, 23, 0), medium);
}

#[test]
fn medium_notice_daytime_event_fires_two_hours_before() {
    // An event at 14:00 local: the medium notice is 12:00 the same day.
    let t = entry(Month::May, 10, Some(HourMinute { hour: 14, minute: 0 }))
        .get_oslo_date_time()
        .unwrap();
    let medium = utc_notification_time_medium_notice(t, 14, 0);
    assert_eq!(oslo_epoch(2020, 5, 10, 12, 0), medium);
}

#[test]
fn notice_offsets() {
    assert_eq!(98800, utc_notification_time_short_notice(100000));
    assert_eq!(92800, utc_notification_time_medium_notice(100000, 14, 0));
    // Local hour 10: subtract (10 + 1) hours and the minutes.
    assert_eq!(100000 - 11 * 3600 - 30 * 60, utc_notification_time_medium_notice(100000, 10, 30));
    // Hour 0 and hour 11 take the flat two hours.
    assert_eq!(92800, utc_notification_time_medium_notice(100000, 0, 59));
    assert_eq!(92800, utc_notification_time_medium_notice(100000, 11, 0));
    assert_eq!(13600, utc_notification_time_24h_notice(100000));
}

#[test]
fn derived_notifications_are_sorted_with_prefixed_messages() {
    let entries = vec![
        entry(Month::May, 10, Some(HourMinute { hour: 18, minute: 30 })),
        entry(Month::May, 9, Some(HourMinute { hour: 12, minute: 0 })),
    ];
    let ns = create_notifications_from_calendar(&entries);
    assert_eq!(6, ns.len());
    for w in ns.windows(2) {
        assert!(w[0].time <= w[1].time);
    }
    let event_time = oslo_epoch(2020, 5, 10, 18, 30);
    let short = ns.iter().find(|n| n.msg.starts_with("Om 20 min: May 10.")).unwrap();
    assert_eq!(event_time - 1200, short.time);
    assert_eq!("Om 20 min: May 10., 18.30: Event", short.msg);
    let medium = ns.iter().find(|n| n.msg.starts_with("husk: May 10.")).unwrap();
    assert_eq!(event_time - 7200, medium.time);
    let day = ns.iter().find(|n| n.msg.starts_with("I morgen: May 10.")).unwrap();
    assert_eq!(event_time - 86400, day.time);
}

#[test]
fn entry_without_instant_derives_nothing() {
    let entries = vec![entry(Month::February, 30, None)];
    assert!(create_notifications_from_calendar(&entries).is_empty());
}

#[test]
fn create_message_renders_all_fields() {
    let e = entry(Month::May, 10, Some(HourMinute { hour: 18, minute: 30 }));
    assert_eq!("May 10., 18.30: Event", e.create_message());
    let no_date = Entry { start_date: None, start_time: None, ..e.clone() };
    assert_eq!("May no date: Event", no_date.create_message());
    let padded = Entry { start_time: Some(HourMinute { hour: 7, minute: 5 }), ..e };
    assert_eq!("May 10., 07.05: Event", padded.create_message());
}

#[test]
fn window_filter_is_half_open() {
    let ns = vec![
        Notification { time: 100, msg: "a".to_string() },
        Notification { time: 200, msg: "b".to_string() },
        Notification { time: 300, msg: "c".to_string() },
    ];
    // (100, 250]: 100 is excluded, 200 kept, 300 excluded.
    let due = get_notifications_within_time_window(&ns, 250, 100);
    assert_eq!(1, due.len());
    assert_eq!(200, due[0].time);
    assert_eq!("b", due[0].msg);
    // The boundary at the current instant is included.
    let due = get_notifications_within_time_window(&ns, 300, 200);
    assert_eq!(1, due.len());
    assert_eq!(300, due[0].time);
    // An empty window selects nothing.
    assert!(get_notifications_within_time_window(&ns, 100, 100).is_empty());
}

#[test]
fn window_filter_preserves_order() {
    let ns = vec![
        Notification { time: 10, msg: "first".to_string() },
        Notification { time: 20, msg: "second".to_string() },
        Notification { time: 20, msg: "third".to_string() },
    ];
    let due = get_notifications_within_time_window(&ns, 20, 0);
    let msgs: Vec<&str> = due.iter().map(|n| n.msg.as_str()).collect();
    assert_eq!(vec!["first", "second", "third"], msgs);
}
