use cal_rem::api::{
    cache_response, etags_differ, get_default_headers, route, ApiGatewayRequest,
    BrowserCachedData, CloudWatchEvent, Event, Header, RouteAction,
};
use cal_rem::render::{
    date, date_description, future_calendar_entries, location, month_name,
    month_name_from_js_month, short_day_name_from_js_day, time,
};
use cal_rem::{Entry, HourMinute, Month};
use chrono::TimeZone;
use std::collections::HashMap;

fn entry(day: Option<u32>, end: Option<u32>, time: Option<HourMinute>) -> Entry {
    Entry {
        description: "Event".to_string(),
        location: Some("Town".to_string()),
        year: 2020,
        month: Month::May,
        start_date: day,
        end_date: end,
        start_time: time,
        end_time: None,
    }
}

#[test]
fn entry_texts() {
    let e = entry(Some(5), Some(11), Some(HourMinute { hour: 7, minute: 5 }));
    assert_eq!("5-11", date(&e));
    assert_eq!("07.05", time(&e));
    assert_eq!("Town", location(&e));
    let single = entry(Some(5), None, None);
    assert_eq!("5", date(&single));
    assert_eq!("", time(&single));
    let unknown = entry(None, None, None);
    assert_eq!("", date(&unknown));
    let ranged = Entry {
        end_time: Some(HourMinute { hour: 20, minute: 0 }),
        ..entry(Some(5), None, Some(HourMinute { hour: 18, minute: 30 }))
    };
    assert_eq!("18.30-20.00", time(&ranged));
    let homeless = Entry { location: None, ..entry(None, None, None) };
    assert_eq!("", location(&homeless));
}

#[test]
fn names_and_descriptions() {
    assert_eq!("Mai", month_name(Month::May));
    assert_eq!("Desember", month_name(Month::December));
    assert_eq!("Januar", month_name_from_js_month(0));
    assert_eq!("Desember", month_name_from_js_month(11));
    assert_eq!("error", month_name_from_js_month(12));
    assert_eq!("man", short_day_name_from_js_day(1));
    assert_eq!("søn", short_day_name_from_js_day(0));
    assert_eq!("error", short_day_name_from_js_day(7));
    assert_eq!("fre 15. Mai", date_description(5, 15, 4));
}

#[test]
fn future_entries_keep_only_recent_and_upcoming() {
    let past = entry(Some(1), None, Some(HourMinute { hour: 8, minute: 0 }));
    let coming = entry(Some(20), None, Some(HourMinute { hour: 8, minute: 0 }));
    let event_time = chrono_tz::Europe::Oslo
        .with_ymd_and_hms(2020, 5, 20, 8, 0, 0)
        .single()
        .unwrap()
        .timestamp();
    let kept = future_calendar_entries(&vec![past, coming.clone()], event_time - 60);
    assert_eq!(vec![coming], kept);
}

#[test]
fn default_headers_hold_the_cors_set() {
    let headers = get_default_headers();
    assert_eq!(4, headers.len());
    assert_eq!((Header::ContentType, "application/json".to_string()), headers[0]);
    assert_eq!((Header::AccessControlAllowOrigin, "*".to_string()), headers[1]);
    assert_eq!(Header::AccessControlAllowHeaders, headers[2].0);
    assert_eq!((Header::AccessControlAllowMethods, "OPTIONS,POST,GET".to_string()), headers[3]);
}

#[test]
fn etag_comparison() {
    assert!(etags_differ(&"abc".to_string(), &None));
    assert!(etags_differ(&"abc".to_string(), &Some("def".to_string())));
    assert!(!etags_differ(&"abc".to_string(), &Some("abc".to_string())));
}

#[test]
fn cache_responses() {
    let hit = cache_response(BrowserCachedData::InCache, "ignored".to_string());
    assert_eq!(304, hit.status_code);
    assert_eq!("", hit.body);
    assert_eq!(4, hit.headers.len());
    let miss = cache_response(
        BrowserCachedData::NotInCache { data: "raw".to_string(), etag: "tag-1".to_string() },
        "[1,2]".to_string(),
    );
    assert_eq!(200, miss.status_code);
    assert_eq!("[1,2]", miss.body);
    assert_eq!((Header::ETag, "tag-1".to_string()), miss.headers[4]);
}

fn get_request(path: &str) -> ApiGatewayRequest {
    ApiGatewayRequest {
        body: None,
        headers: HashMap::new(),
        http_method: "GET".to_string(),
        path: path.to_string(),
    }
}

#[test]
fn routing() {
    let periodic = Event::CloudWatchEvent(CloudWatchEvent {
        detail_type: "tick".to_string(),
        source: "timer".to_string(),
    });
    assert_eq!(RouteAction::RunNotifier, route(&periodic));
    assert_eq!(
        RouteAction::CalendarQuery,
        route(&Event::ApiGatewayRequest(get_request("/get-all-calendar-entries")))
    );
    assert_eq!(
        RouteAction::TodoQuery,
        route(&Event::ApiGatewayRequest(get_request("/get-all-todo-entries")))
    );
    assert_eq!(
        RouteAction::NotFoundPath,
        route(&Event::ApiGatewayRequest(get_request("/somewhere-else")))
    );
    let preflight = ApiGatewayRequest { http_method: "OPTIONS".to_string(), ..get_request("/") };
    assert_eq!(RouteAction::PreflightOk, route(&Event::ApiGatewayRequest(preflight)));
    let post = ApiGatewayRequest {
        body: Some("{}".to_string()),
        http_method: "POST".to_string(),
        ..get_request("/")
    };
    assert_eq!(RouteAction::UnknownCommand, route(&Event::ApiGatewayRequest(post)));
}
