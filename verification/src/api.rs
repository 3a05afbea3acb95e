//! The service surface: the two kinds of triggering events, the HTTP
//! response shape, the routing decision, and the browser-cache
//! handling shared by the query endpoints.

use std::collections::HashMap;
use vstd::prelude::*;
use vstd::string::*;

use crate::chars::str_eq_str;

verus! {

/// A periodic trigger event with no payload of interest.
pub struct CloudWatchEvent {
    pub detail_type: String,
    pub source: String,
}

/// An on-demand query request from a client.
pub struct ApiGatewayRequest {
    pub body: Option<String>,
    pub headers: HashMap<String, String>,
    pub http_method: String,
    pub path: String,
}

/// Whatever invoked the service: a periodic trigger or a client
/// request.
pub enum Event {
    ApiGatewayRequest(ApiGatewayRequest),
    CloudWatchEvent(CloudWatchEvent),
}

/// A response header name.
#[derive(Debug, Eq, PartialEq, Structural, Clone, Copy, Hash)]
pub enum Header {
    AccessControlAllowHeaders,
    AccessControlAllowMethods,
    AccessControlAllowOrigin,
    CacheControl,
    ContentType,
    ETag,
    Expires,
    LastModified,
}

/// An HTTP response: status, headers and body.  The headers are kept
/// as ordered pairs; no name appears twice.
pub struct Response {
    pub status_code: u32,
    pub headers: Vec<(Header, String)>,
    pub body: String,
}

/// Data that may still sit in the client's cache: nothing new when
/// the client's tag matches, else the fresh text with its tag.
pub enum BrowserCachedData<T> {
    InCache,
    NotInCache { data: T, etag: String },
}

/// The headers every response carries: a JSON content type and the
/// permissive cross-origin trio.
pub fn get_default_headers() -> (r: Vec<(Header, String)>)
    ensures
        r@.len() == 4,
        r@[0].0 == Header::ContentType && r@[0].1@ == "application/json"@,
        r@[1].0 == Header::AccessControlAllowOrigin && r@[1].1@ == "*"@,
        r@[2].0 == Header::AccessControlAllowHeaders && r@[2].1@
            == "Content-Type,X-Amz-Date,Authorization,X-Api-Key,X-Amz-Security-Token"@,
        r@[3].0 == Header::AccessControlAllowMethods && r@[3].1@ == "OPTIONS,POST,GET"@,
{
    let mut r: Vec<(Header, String)> = Vec::new();
    r.push((Header::ContentType, String::from_str("application/json")));
    r.push((Header::AccessControlAllowOrigin, String::from_str("*")));
    r.push(
        (
            Header::AccessControlAllowHeaders,
            String::from_str("Content-Type,X-Amz-Date,Authorization,X-Api-Key,X-Amz-Security-Token"),
        ),
    );
    r.push((Header::AccessControlAllowMethods, String::from_str("OPTIONS,POST,GET")));
    r
}

/// Whether fresh data must be sent: always when the client offers no
/// tag, and otherwise exactly when the source's tag differs from the
/// client's.
pub fn etags_differ(source_etag: &String, client_etag: &Option<String>) -> (r: bool)
    ensures
        r == match client_etag {
            Some(c) => source_etag@ != c@,
            None => true,
        },
{
    match client_etag {
        Some(c) => !str_eq_str(source_etag.as_str(), c.as_str()),
        None => true,
    }
}

/// Builds the query response for possibly-cached data: a bare 304
/// when the client's copy is current, else a 200 carrying the fresh
/// body and the new tag.
pub fn cache_response(cached: BrowserCachedData<String>, fresh_body: String) -> (r: Response)
    ensures
        match cached {
            BrowserCachedData::InCache => {
                &&& r.status_code == 304
                &&& r.body@ == Seq::<char>::empty()
                &&& r.headers@.len() == 4
            },
            BrowserCachedData::NotInCache { data, etag } => {
                &&& r.status_code == 200
                &&& r.body == fresh_body
                &&& r.headers@.len() == 5
                &&& r.headers@[4].0 == Header::ETag
                &&& r.headers@[4].1 == etag
            },
        },
{
    match cached {
        BrowserCachedData::InCache => Response {
            status_code: 304,
            headers: get_default_headers(),
            body: String::new(),
        },
        BrowserCachedData::NotInCache { data: _, etag } => {
            let mut headers = get_default_headers();
            headers.push((Header::ETag, etag));
            Response { status_code: 200, headers, body: fresh_body }
        },
    }
}

/// Where an incoming event is routed.
#[derive(Debug, Eq, PartialEq, Structural, Clone, Copy)]
pub enum RouteAction {
    /// A periodic trigger: run the notifier.
    RunNotifier,
    /// A bodyless preflight request: answer 200 with the default
    /// headers.
    PreflightOk,
    /// Serve the parsed calendar entries.
    CalendarQuery,
    /// Serve the parsed to-do entries.
    TodoQuery,
    /// A GET for an unknown path: answer 404, resource not found.
    NotFoundPath,
    /// Anything else: answer 404, unknown command.
    UnknownCommand,
}

/// The routing decision for an event.
pub open spec fn spec_route(e: Event) -> RouteAction {
    match e {
        Event::CloudWatchEvent(_) => RouteAction::RunNotifier,
        Event::ApiGatewayRequest(req) => {
            if req.body is None && req.http_method@ == "OPTIONS"@ {
                RouteAction::PreflightOk
            } else if req.http_method@ == "GET"@ {
                if req.path@ == "/get-all-calendar-entries"@ {
                    RouteAction::CalendarQuery
                } else if req.path@ == "/get-all-todo-entries"@ {
                    RouteAction::TodoQuery
                } else {
                    RouteAction::NotFoundPath
                }
            } else {
                RouteAction::UnknownCommand
            }
        },
    }
}

/// Decides what to do with an incoming event: a periodic trigger runs
/// the notifier; a bodyless OPTIONS request is answered as a
/// preflight; a GET is served by path; everything else is unknown.
pub fn route(event: &Event) -> (r: RouteAction)
    ensures
        r == spec_route(*event),
{
    match event {
        Event::CloudWatchEvent(_) => RouteAction::RunNotifier,
        Event::ApiGatewayRequest(req) => {
            if req.body.is_none() && str_eq_str(req.http_method.as_str(), "OPTIONS") {
                RouteAction::PreflightOk
            } else if str_eq_str(req.http_method.as_str(), "GET") {
                if str_eq_str(req.path.as_str(), "/get-all-calendar-entries") {
                    RouteAction::CalendarQuery
                } else if str_eq_str(req.path.as_str(), "/get-all-todo-entries") {
                    RouteAction::TodoQuery
                } else {
                    RouteAction::NotFoundPath
                }
            } else {
                RouteAction::UnknownCommand
            }
        },
    }
}

} // verus!
