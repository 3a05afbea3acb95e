//! The scheduler's decisions: resolving the stored watermark, planning
//! one run, and the guarantee that consecutive runs never redeliver.
//!
//! A run reads the stored watermark string, parses the calendar text,
//! derives and sorts all notifications, selects those due in the
//! half-open window after the watermark up to the current instant, and
//! writes the current instant back as the new watermark — always, even
//! when delivery fails, so an outage drops reminders instead of
//! replaying them as a growing backlog on the next successful run.
//! The surrounding program performs the reads, the delivery and the
//! write; everything decided here is a pure function of the values it
//! is handed.

use vstd::prelude::*;
use vstd::string::*;

use crate::chars::{
    dec_str_i64, lemma_dec_round_trip, parse_i64, parse_i64_spec, strs_view,
};
use crate::notify::{
    create_notifications_from_calendar, get_notifications_within_time_window,
    lemma_windows_disjoint, notifs_view, sorted_by_time, spec_derive_all, spec_window,
    NotificationModel,
};
use crate::parser::{parse_calendar_file, spec_parse_calendar};

verus! {

/// What came of handing a batch of messages to the delivery
/// collaborator.  The scheduler proceeds identically either way: a
/// failed delivery is logged and dropped, never retried.
pub enum DeliveryOutcome {
    Delivered,
    DeliveryFailed,
}

/// The character sequences of an optional stored string.
pub open spec fn opt_str_view(s: Option<String>) -> Option<Seq<char>> {
    match s {
        Some(v) => Some(v@),
        None => None,
    }
}

/// The previous watermark a run works with: the stored string when it
/// parses as a signed decimal, and the conservative fallback of one
/// hour before the current instant when nothing usable is stored.
pub open spec fn spec_resolve_watermark(stored: Option<Seq<char>>, now: i64) -> int {
    match stored {
        Some(s) => match parse_i64_spec(s) {
            Some(v) => v as int,
            None => now - 3600,
        },
        None => now - 3600,
    }
}

/// Resolves the stored watermark string, falling back to one hour
/// before `now` when it is absent or unparseable.
pub fn resolve_watermark(stored: &Option<String>, now: i64) -> (r: i64)
    requires
        now as int - 3600 >= i64::MIN,
    ensures
        r as int == spec_resolve_watermark(opt_str_view(*stored), now),
{
    match stored {
        Some(s) => match parse_i64(s.as_str()) {
            Some(v) => v,
            None => now - 3600,
        },
        None => now - 3600,
    }
}

/// What one scheduler run decides: the messages to deliver, and the
/// watermark to store afterwards.
pub struct RunPlan {
    pub messages: Vec<String>,
    pub new_watermark: i64,
}

/// The message texts of a sequence of notifications.
pub open spec fn msgs_of(s: Seq<NotificationModel>) -> Seq<Seq<char>> {
    s.map_values(|n: NotificationModel| n.msg)
}

/// Plans one scheduler run from the calendar text, the stored
/// watermark and the current instant: the messages are those of the
/// derived notifications due in the half-open window after the
/// resolved watermark up to `now`, in ascending fire-time order, and
/// the new watermark is `now` itself — unconditionally, whatever
/// becomes of delivery.
pub fn plan_run(calendar_text: &str, stored_watermark: &Option<String>, now: i64) -> (plan:
    RunPlan)
    requires
        now as int - 3600 >= i64::MIN,
    ensures
        plan.new_watermark == now,
        exists|ns: Seq<NotificationModel>|
            {
                &&& ns.to_multiset() == spec_derive_all(
                    spec_parse_calendar(calendar_text@),
                ).to_multiset()
                &&& #[trigger] sorted_by_time(ns)
                &&& strs_view(plan.messages@) == msgs_of(
                    spec_window(
                        ns,
                        now as int,
                        spec_resolve_watermark(opt_str_view(*stored_watermark), now),
                    ),
                )
            },
{
    let previous = resolve_watermark(stored_watermark, now);
    let entries = parse_calendar_file(calendar_text);
    let notifications = create_notifications_from_calendar(&entries);
    let due = get_notifications_within_time_window(&notifications, now, previous);
    let mut messages: Vec<String> = Vec::new();
    let mut i: usize = 0;
    while i < due.len()
        invariant
            0 <= i <= due@.len(),
            strs_view(messages@) == msgs_of(notifs_view(due@).subrange(0, i as int)),
        decreases due@.len() - i,
    {
        let ghost m0 = messages@;
        let m = due[i].msg.clone();
        proof {
            assert(strs_view(m0.push(m)) =~= strs_view(m0).push(m@));
            assert(msgs_of(notifs_view(due@).subrange(0, i + 1)) =~= msgs_of(
                notifs_view(due@).subrange(0, i as int),
            ).push(notifs_view(due@)[i as int].msg));
        }
        messages.push(m);
        i = i + 1;
    }
    proof {
        assert(notifs_view(due@).subrange(0, due@.len() as int) =~= notifs_view(due@));
        assert(msgs_of(spec_window(
            notifs_view(notifications@),
            now as int,
            spec_resolve_watermark(opt_str_view(*stored_watermark), now),
        )) == strs_view(messages@));
    }
    RunPlan { messages, new_watermark: now }
}

/// The hour window in which the auxiliary to-do hint may be appended
/// to an outgoing batch: strictly after 08 and strictly before 23
/// local hours.
pub fn todo_hint_hour_ok(hour: u32) -> (r: bool)
    ensures
        r == (8 < hour && hour < 23),
{
    hour > 8 && hour < 23
}

/// Consecutive runs never redeliver: the first run stores its own
/// instant as the watermark; the second run resolves exactly that
/// instant back from the stored decimal string, and the two half-open
/// windows `(prev, now1]` and `(now1, now2]` cannot both contain the
/// same notification, however irregularly the runs are spaced.
pub proof fn lemma_no_redelivery(
    s1: Seq<NotificationModel>,
    s2: Seq<NotificationModel>,
    previous_time: int,
    now1: i64,
    now2: i64,
    n: NotificationModel,
)
    ensures
        spec_resolve_watermark(Some(dec_str_i64(now1 as int)), now2) == now1 as int,
        !(spec_window(s1, now1 as int, previous_time).contains(n) && spec_window(
            s2,
            now2 as int,
            now1 as int,
        ).contains(n)),
{
    lemma_dec_round_trip(now1);
    lemma_windows_disjoint(s1, s2, previous_time, now1 as int, now2 as int, n);
}

} // verus!
