use cal_rem::chars::{i64_to_dec, parse_i64, u64_to_dec};
use cal_rem::notifier::{plan_run, resolve_watermark, todo_hint_hour_ok};
use chrono::TimeZone;

fn oslo_epoch(y: i32, mo: u32, d: u32, h: u32, mi: u32) -> i64 {
    chrono_tz::Europe::Oslo
        .with_ymd_and_hms(y, mo, d, h, mi, 0)
        .single()
        .unwrap()
        .timestamp()
}

#[test]
fn decimal_rendering_and_parsing() {
    assert_eq!("0", u64_to_dec(0));
    assert_eq!("42", u64_to_dec(42));
    assert_eq!("18446744073709551615", u64_to_dec(u64::MAX));
    assert_eq!("-7", i64_to_dec(-7));
    assert_eq!("9223372036854775807", i64_to_dec(i64::MAX));
    assert_eq!("-9223372036854775808", i64_to_dec(i64::MIN));
    assert_eq!(Some(123), parse_i64("123"));
    assert_eq!(Some(-5), parse_i64("-5"));
    assert_eq!(Some(7), parse_i64("+7"));
    assert_eq!(Some(i64::MIN), parse_i64("-9223372036854775808"));
    assert_eq!(Some(i64::MAX), parse_i64("9223372036854775807"));
    assert_eq!(None, parse_i64("9223372036854775808"));
    assert_eq!(None, parse_i64("-9223372036854775809"));
    assert_eq!(None, parse_i64(""));
    assert_eq!(None, parse_i64("-"));
    assert_eq!(None, parse_i64(" 12"));
    assert_eq!(None, parse_i64("12a"));
    assert_eq!(None, parse_i64("1.5"));
    // What the scheduler stores, it reads back unchanged.
    assert_eq!(Some(1589128200), parse_i64(&i64_to_dec(1589128200)));
}

#[test]
fn watermark_resolution() {
    assert_eq!(500, resolve_watermark(&Some("500".to_string()), 10000));
    assert_eq!(10000 - 3600, resolve_watermark(&None, 10000));
    // An unparseable stored value falls back to one hour before now.
    assert_eq!(10000 - 3600, resolve_watermark(&Some("not a number".to_string()), 10000));
    assert_eq!(10000 - 3600, resolve_watermark(&Some("".to_string()), 10000));
}

#[test]
fn todo_hint_hour_window() {
    assert!(!todo_hint_hour_ok(8));
    assert!(todo_hint_hour_ok(9));
    assert!(todo_hint_hour_ok(22));
    assert!(!todo_hint_hour_ok(23));
    assert!(!todo_hint_hour_ok(0));
}

#[test]
fn plan_selects_due_messages_and_advances_watermark() {
    let text = "2020\nMai\n10. Party @ Town [18.30]\n";
    let event_time = oslo_epoch(2020, 5, 10, 18, 30);
    // The short notice (20 minutes ahead) falls inside this window.
    let now = event_time - 600;
    let plan = plan_run(text, &None, now);
    assert_eq!(now, plan.new_watermark);
    assert_eq!(vec!["Om 20 min: May 10., 18.30: Party".to_string()], plan.messages);
}

#[test]
fn consecutive_runs_never_redeliver() {
    let text = "2020\nMai\n10. Party @ Town [18.30]\n";
    let event_time = oslo_epoch(2020, 5, 10, 18, 30);
    let now1 = event_time - 600;
    let first = plan_run(text, &None, now1);
    assert_eq!(1, first.messages.len());
    // The second run starts from the stored watermark; its half-open
    // window excludes everything the first run delivered.
    let stored = Some(i64_to_dec(first.new_watermark));
    let second = plan_run(text, &stored, now1 + 300);
    for msg in &second.messages {
        assert!(!first.messages.contains(msg));
    }
    assert!(second.messages.is_empty());
}

#[test]
fn unreadable_watermark_bounds_the_window() {
    let text = "2020\nMai\n10. Party @ Town [18.30]\n";
    let event_time = oslo_epoch(2020, 5, 10, 18, 30);
    // The 24-hour notice is long past; with a corrupt watermark the
    // window only reaches one hour back, so it is not replayed.
    let now = event_time - 600;
    let plan = plan_run(text, &Some("garbled".to_string()), now);
    assert_eq!(vec!["Om 20 min: May 10., 18.30: Party".to_string()], plan.messages);
}
