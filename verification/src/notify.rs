//! The notification deriver and the window filter.
//!
//! Each calendar entry with a constructible event instant yields three
//! reminders: a short notice 20 minutes ahead, a medium notice whose
//! offset depends on the event's local hour, and a 24-hour notice.
//! The combined sequence is sorted by fire time.  A run then selects
//! the notifications due in the half-open window between the previous
//! watermark and the current instant.

use vstd::prelude::*;
use vstd::seq_lib::*;
use vstd::string::*;

use crate::parser::entries_view;
use crate::shared::{
    spec_create_message, spec_event_hour, spec_event_minute, spec_oslo_instant, Entry, EntryModel,
};

verus! {

/// A derived reminder: an absolute fire time in epoch seconds, and the
/// message to deliver.  Ephemeral: never persisted.
#[derive(Debug, Clone)]
pub struct Notification {
    pub time: i64,
    pub msg: String,
}

/// The mathematical model of a [`Notification`]: its fire time as an
/// unbounded integer and its message as a character sequence.
pub struct NotificationModel {
    pub time: int,
    pub msg: Seq<char>,
}

impl View for Notification {
    type V = NotificationModel;

    open spec fn view(&self) -> NotificationModel {
        NotificationModel { time: self.time as int, msg: self.msg@ }
    }
}

/// The models of a vector of notifications.
pub open spec fn notifs_view(s: Seq<Notification>) -> Seq<NotificationModel> {
    s.map_values(|n: Notification| n@)
}

/// Fire times never decrease along the sequence.
pub open spec fn sorted_by_time(s: Seq<NotificationModel>) -> bool {
    forall|i: int, j: int| 0 <= i <= j < s.len() ==> s[i].time <= s[j].time
}

/// The short notice fires 20 minutes before the event.
pub open spec fn spec_short_notice(t: int) -> int {
    t - 20 * 60
}

/// The medium notice: for an event whose local hour is between 01 and
/// 10, it is anchored to 23:00 local time on the previous day, reached
/// by subtracting one hour more than the event's own hour and its
/// minutes; otherwise it fires a flat two hours before the event.
pub open spec fn spec_medium_notice(t: int, hour: u32, minute: u32) -> int {
    if 1 <= hour && hour <= 10 {
        t - ((hour + 1) * 3600 + minute * 60)
    } else {
        t - 2 * 3600
    }
}

/// The 24-hour notice fires one day before the event.
pub open spec fn spec_day_notice(t: int) -> int {
    t - 24 * 3600
}

/// The reminder instant 20 minutes before the event instant.
pub fn utc_notification_time_short_notice(event_time: i64) -> (r: i64)
    requires
        event_time as int - 1200 >= i64::MIN,
    ensures
        r == spec_short_notice(event_time as int),
{
    event_time - 1200
}

/// The medium reminder instant: 23:00 local time the previous day for
/// events in the early local hours, else two hours before the event.
/// `hour` and `minute` are the event's local wall-clock time, the same
/// values its instant was built from.
pub fn utc_notification_time_medium_notice(event_time: i64, hour: u32, minute: u32) -> (r: i64)
    requires
        spec_medium_notice(event_time as int, hour, minute) >= i64::MIN,
    ensures
        r == spec_medium_notice(event_time as int, hour, minute),
{
    if 1 <= hour && hour <= 10 {
        let sub: u64 = ((hour as u64) + 1) * 3600 + (minute as u64) * 60;
        event_time - (sub as i64)
    } else {
        event_time - 7200
    }
}

/// The reminder instant 24 hours before the event instant.
pub fn utc_notification_time_24h_notice(event_time: i64) -> (r: i64)
    requires
        event_time as int - 86400 >= i64::MIN,
    ensures
        r == spec_day_notice(event_time as int),
{
    event_time - 86400
}

/// The reminders of one entry: three notices with prefixed messages
/// for an entry whose event instant exists, and none otherwise.
pub open spec fn spec_notifications_for(e: EntryModel) -> Seq<NotificationModel> {
    match spec_oslo_instant(e) {
        Some(t) => seq![
            NotificationModel {
                time: spec_short_notice(t as int),
                msg: "Om 20 min: "@ + spec_create_message(e),
            },
            NotificationModel {
                time: spec_medium_notice(t as int, spec_event_hour(e), spec_event_minute(e)),
                msg: "husk: "@ + spec_create_message(e),
            },
            NotificationModel {
                time: spec_day_notice(t as int),
                msg: "I morgen: "@ + spec_create_message(e),
            },
        ],
        None => Seq::empty(),
    }
}

/// The reminders of a sequence of entries, in entry order.
pub open spec fn spec_derive_all(es: Seq<EntryModel>) -> Seq<NotificationModel>
    decreases es.len(),
{
    if es.len() == 0 {
        Seq::empty()
    } else {
        spec_notifications_for(es[0]) + spec_derive_all(es.drop_first())
    }
}

proof fn lemma_derive_all_push(es: Seq<EntryModel>, e: EntryModel)
    ensures
        spec_derive_all(es.push(e)) == spec_derive_all(es) + spec_notifications_for(e),
    decreases es.len(),
{
    if es.len() == 0 {
        assert(es.push(e)[0] == e);
        assert(es.push(e).drop_first() =~= Seq::<EntryModel>::empty());
        assert(spec_derive_all(Seq::<EntryModel>::empty()) =~= Seq::<NotificationModel>::empty());
        assert(spec_derive_all(es.push(e)) =~= spec_notifications_for(e) + Seq::<
            NotificationModel,
        >::empty());
        assert(spec_notifications_for(e) + Seq::<NotificationModel>::empty()
            =~= spec_notifications_for(e));
        assert(spec_derive_all(es) + spec_notifications_for(e) =~= spec_notifications_for(e));
    } else {
        assert(es.push(e).drop_first() =~= es.drop_first().push(e));
        lemma_derive_all_push(es.drop_first(), e);
        assert(es.push(e)[0] == es[0]);
        assert(spec_notifications_for(es[0]) + (spec_derive_all(es.drop_first())
            + spec_notifications_for(e)) =~= (spec_notifications_for(es[0]) + spec_derive_all(
            es.drop_first(),
        )) + spec_notifications_for(e));
    }
}

fn prefixed(prefix: &str, msg: &String) -> (r: String)
    ensures
        r@ == prefix@ + msg@,
{
    let mut r = String::from_str(prefix);
    r.append(msg.as_str());
    r
}

/// Sorts notifications ascending by fire time.  The result holds
/// exactly the given notifications; the order of equal fire times is
/// not specified.
fn sort_notifications(v: Vec<Notification>) -> (r: Vec<Notification>)
    ensures
        notifs_view(r@).to_multiset() == notifs_view(v@).to_multiset(),
        sorted_by_time(notifs_view(r@)),
{
    broadcast use vstd::seq_lib::group_to_multiset_ensures;
    broadcast use vstd::multiset::group_multiset_axioms;

    let mut src = v;
    let mut out: Vec<Notification> = Vec::new();
    let ghost total = notifs_view(src@).to_multiset();
    proof {
        assert(notifs_view(out@) =~= Seq::<NotificationModel>::empty());
        assert(notifs_view(out@).to_multiset().add(notifs_view(src@).to_multiset()) =~= total);
    }
    while src.len() > 0
        invariant
            notifs_view(out@).to_multiset().add(notifs_view(src@).to_multiset()) == total,
            total == notifs_view(v@).to_multiset(),
            sorted_by_time(notifs_view(out@)),
            forall|i: int, j: int|
                0 <= i < out@.len() && 0 <= j < src@.len() ==> notifs_view(out@)[i].time
                    <= notifs_view(src@)[j].time,
        decreases src.len(),
    {
        let mut mi: usize = 0;
        let mut k: usize = 1;
        while k < src.len()
            invariant
                0 <= mi < src@.len(),
                1 <= k <= src@.len(),
                forall|j: int| 0 <= j < k ==> notifs_view(src@)[mi as int].time <= notifs_view(
                    src@,
                )[j].time,
            decreases src.len() - k,
        {
            if src[k].time < src[mi].time {
                mi = k;
            }
            k = k + 1;
        }
        let ghost src0 = src@;
        let ghost out0 = out@;
        let x = src.remove(mi);
        proof {
            assert(notifs_view(src@) =~= notifs_view(src0).remove(mi as int));
            assert(notifs_view(out0.push(x)) =~= notifs_view(out0).push(x@));
            broadcast use vstd::multiset::group_multiset_axioms;

            assert(notifs_view(src0)[mi as int] == x@);
            assert(notifs_view(src0).contains(x@));
            to_multiset_contains(notifs_view(src0), x@);
            to_multiset_build(notifs_view(out0), x@);
            to_multiset_remove(notifs_view(src0), mi as int);
            assert(notifs_view(out0).to_multiset().insert(x@).add(
                notifs_view(src0).to_multiset().remove(x@),
            ) =~= notifs_view(out0).to_multiset().add(notifs_view(src0).to_multiset()));
            notifs_view(src0).remove_ensures(mi as int);
        }
        out.push(x);
    }
    proof {
        assert(notifs_view(src@) =~= Seq::<NotificationModel>::empty());
        assert(notifs_view(out@).to_multiset().add(Seq::<NotificationModel>::empty().to_multiset())
            =~= notifs_view(out@).to_multiset());
    }
    out
}

/// Derives every reminder of every entry and returns them sorted
/// ascending by fire time.  Entries whose local event time does not
/// exist in the event zone contribute no reminders.
pub fn create_notifications_from_calendar(entries: &Vec<Entry>) -> (r: Vec<Notification>)
    ensures
        notifs_view(r@).to_multiset() == spec_derive_all(entries_view(entries@)).to_multiset(),
        sorted_by_time(notifs_view(r@)),
{
    let mut flat: Vec<Notification> = Vec::new();
    let mut idx: usize = 0;
    while idx < entries.len()
        invariant
            0 <= idx <= entries@.len(),
            notifs_view(flat@) == spec_derive_all(entries_view(entries@).subrange(0, idx as int)),
        decreases entries@.len() - idx,
    {
        let entry = &entries[idx];
        let ghost pre = entries_view(entries@).subrange(0, idx as int);
        proof {
            assert(entries_view(entries@).subrange(0, idx + 1) =~= pre.push(entry@));
            lemma_derive_all_push(pre, entry@);
        }
        match entry.get_oslo_date_time() {
            Some(t) => {
                let msg = entry.create_message();
                let hour: u32 = match &entry.start_time {
                    Some(hm) => hm.hour,
                    None => 8,
                };
                let minute: u32 = match &entry.start_time {
                    Some(hm) => hm.minute,
                    None => 0,
                };
                let ghost flat0 = flat@;
                let n1 = Notification {
                    time: utc_notification_time_short_notice(t),
                    msg: prefixed("Om 20 min: ", &msg),
                };
                let n2 = Notification {
                    time: utc_notification_time_medium_notice(t, hour, minute),
                    msg: prefixed("husk: ", &msg),
                };
                let n3 = Notification {
                    time: utc_notification_time_24h_notice(t),
                    msg: prefixed("I morgen: ", &msg),
                };
                proof {
                    assert(notifs_view(flat0.push(n1).push(n2).push(n3)) =~= notifs_view(
                        flat0,
                    ).push(n1@).push(n2@).push(n3@));
                    assert(notifs_view(flat0).push(n1@).push(n2@).push(n3@) =~= notifs_view(flat0)
                        + spec_notifications_for(entry@));
                }
                flat.push(n1);
                flat.push(n2);
                flat.push(n3);
            },
            None => {
                proof {
                    assert(notifs_view(flat@) + spec_notifications_for(entry@) =~= notifs_view(
                        flat@,
                    ));
                }
            },
        }
        idx = idx + 1;
    }
    proof {
        assert(entries_view(entries@).subrange(0, entries@.len() as int) =~= entries_view(
            entries@,
        ));
    }
    sort_notifications(flat)
}

/// A notification is due when its fire time lies in the half-open
/// window after the previous watermark and not after the current
/// instant.
pub open spec fn due_pred(current_time: int, previous_time: int) -> spec_fn(
    NotificationModel,
) -> bool {
    |n: NotificationModel| previous_time < n.time && n.time <= current_time
}

/// The notifications due in the window, in their original order.
pub open spec fn spec_window(
    s: Seq<NotificationModel>,
    current_time: int,
    previous_time: int,
) -> Seq<NotificationModel> {
    s.filter(due_pred(current_time, previous_time))
}

/// Selects the notifications with `previous_time < time <=
/// current_time`, preserving their order.  One due exactly at the
/// previous watermark is excluded (the prior run handled it); one due
/// exactly at the current instant is included.
pub fn get_notifications_within_time_window(
    notifications: &Vec<Notification>,
    current_time: i64,
    previous_time: i64,
) -> (r: Vec<Notification>)
    ensures
        notifs_view(r@) == spec_window(
            notifs_view(notifications@),
            current_time as int,
            previous_time as int,
        ),
{
    let ghost nv = notifs_view(notifications@);
    let mut out: Vec<Notification> = Vec::new();
    let mut i: usize = 0;
    proof {
        reveal(Seq::filter);
    }
    while i < notifications.len()
        invariant
            0 <= i <= notifications@.len(),
            nv == notifs_view(notifications@),
            notifs_view(out@) == nv.subrange(0, i as int).filter(
                due_pred(current_time as int, previous_time as int),
            ),
        decreases notifications@.len() - i,
    {
        let n = &notifications[i];
        proof {
            reveal(Seq::filter);
            let pre = nv.subrange(0, i as int);
            let nxt = nv.subrange(0, i + 1);
            assert(nxt.drop_last() =~= pre);
            assert(nxt.last() == n@);
        }
        if previous_time < n.time && n.time <= current_time {
            let ghost out0 = out@;
            let kept = Notification { time: n.time, msg: n.msg.clone() };
            proof {
                assert(kept@ == n@);
                assert(notifs_view(out0.push(kept)) =~= notifs_view(out0).push(n@));
            }
            out.push(kept);
        }
        i = i + 1;
    }
    proof {
        assert(nv.subrange(0, notifications@.len() as int) =~= nv);
    }
    out
}

/// The two windows of consecutive runs never share a notification:
/// whatever was due at or before the first run's instant is excluded
/// from the second run's window, so nothing is selected twice.
pub proof fn lemma_windows_disjoint(
    s1: Seq<NotificationModel>,
    s2: Seq<NotificationModel>,
    previous_time: int,
    mid_time: int,
    next_time: int,
    n: NotificationModel,
)
    ensures
        !(spec_window(s1, mid_time, previous_time).contains(n) && spec_window(
            s2,
            next_time,
            mid_time,
        ).contains(n)),
{
    broadcast use vstd::seq_lib::group_filter_ensures;

    if spec_window(s1, mid_time, previous_time).contains(n) && spec_window(
        s2,
        next_time,
        mid_time,
    ).contains(n) {
        let i = choose|i: int|
            0 <= i < spec_window(s1, mid_time, previous_time).len() && spec_window(
                s1,
                mid_time,
                previous_time,
            )[i] == n;
        assert(due_pred(mid_time, previous_time)(n));
        let j = choose|j: int|
            0 <= j < spec_window(s2, next_time, mid_time).len() && spec_window(
                s2,
                next_time,
                mid_time,
            )[j] == n;
        assert(due_pred(next_time, mid_time)(n));
        assert(n.time <= mid_time && mid_time < n.time);
    }
}

} // verus!
