//! A match's timeline: its events (goals, cards, ...) and its statistics
//! snapshots, each stamped with the minute of play, listed in minute order.

use vstd::prelude::*;
use crate::money::{digits, nat_to_string};
use crate::order::{sort_by_time, lemma_push_contains, time_before};
use crate::text::{str_eq, concat};

verus! {

/// An event of a match at a minute of play.
#[derive(Debug, Clone)]
pub struct EventRecord {
    pub match_id: String,
    pub event_type: String,
    pub minute: i32,
}

/// A statistics snapshot of a match at a minute of play.
#[derive(Debug, Clone)]
pub struct SnapshotRecord {
    pub match_id: String,
    pub minute: i32,
}

/// The minutes of the events, in order.
pub open spec fn event_minutes(s: Seq<EventRecord>) -> Seq<i64> {
    s.map_values(|e: EventRecord| e.minute as i64)
}

/// The minutes of the snapshots, in order.
pub open spec fn snapshot_minutes(s: Seq<SnapshotRecord>) -> Seq<i64> {
    s.map_values(|e: SnapshotRecord| e.minute as i64)
}

/// `order` lists exactly the indices below `n` for which `keep` holds, each
/// once, by minute (`keys`), earliest first, equal minutes in stored order.
pub open spec fn lists_by_minute(n: int, keys: Seq<i64>, keep: spec_fn(int) -> bool, order: Seq<usize>) -> bool {
    &&& forall|x: int| #![trigger keep(x)] 0 <= x < n ==> (keep(x) <==> order.contains(x as usize))
    &&& forall|i: int| 0 <= i < order.len() ==> (#[trigger] order[i]) < n
    &&& forall|i: int, j: int| 0 <= i < j < order.len()
        ==> time_before(keys, #[trigger] order[i] as int, #[trigger] order[j] as int, false)
}

fn minutes_of_events(events: &Vec<EventRecord>) -> (t: Vec<i64>)
    ensures
        t@ == event_minutes(events@),
{
    let mut t: Vec<i64> = Vec::new();
    let mut i: usize = 0;
    while i < events.len()
        invariant
            i <= events@.len(),
            t@ == event_minutes(events@.take(i as int)),
        decreases events.len() - i,
    {
        t.push(events[i].minute as i64);
        proof {
            assert(events@.take(i + 1) =~= events@.take(i as int).push(events@[i as int]));
            assert(event_minutes(events@.take(i + 1)) =~= event_minutes(events@.take(i as int)).push(events@[i as int].minute as i64));
        }
        i = i + 1;
    }
    proof {
        assert(events@.take(events@.len() as int) =~= events@);
    }
    t
}

fn minutes_of_snapshots(stats: &Vec<SnapshotRecord>) -> (t: Vec<i64>)
    ensures
        t@ == snapshot_minutes(stats@),
{
    let mut t: Vec<i64> = Vec::new();
    let mut i: usize = 0;
    while i < stats.len()
        invariant
            i <= stats@.len(),
            t@ == snapshot_minutes(stats@.take(i as int)),
        decreases stats.len() - i,
    {
        t.push(stats[i].minute as i64);
        proof {
            assert(stats@.take(i + 1) =~= stats@.take(i as int).push(stats@[i as int]));
            assert(snapshot_minutes(stats@.take(i + 1)) =~= snapshot_minutes(stats@.take(i as int)).push(stats@[i as int].minute as i64));
        }
        i = i + 1;
    }
    proof {
        assert(stats@.take(stats@.len() as int) =~= stats@);
    }
    t
}

/// Event `e` belongs to match `m` and, when a type is given, has that type.
pub open spec fn event_selected(e: EventRecord, m: Seq<char>, event_type: Option<Seq<char>>) -> bool {
    e.match_id@ == m && (event_type matches Some(t) ==> e.event_type@ == t)
}

fn selected_events(events: &Vec<EventRecord>, match_id: &str, event_type: Option<&str>) -> (members: Vec<usize>)
    ensures
        forall|k: int| 0 <= k < members@.len() ==> (#[trigger] members@[k]) < events@.len(),
        forall|a: int, b: int| 0 <= a < b < members@.len() ==> (#[trigger] members@[a]) < (#[trigger] members@[b]),
        forall|x: int| 0 <= x < events@.len() ==> (event_selected(events@[x], match_id@, match event_type {
            Some(t) => Some(t@),
            None => None,
        }) <==> #[trigger] members@.contains(x as usize)),
{
    let ghost ty: Option<Seq<char>> = match event_type {
        Some(t) => Some(t@),
        None => None,
    };
    let mut members: Vec<usize> = Vec::new();
    let mut i: usize = 0;
    while i < events.len()
        invariant
            i <= events@.len(),
            ty == (match event_type {
                Some(t) => Some(t@),
                None => None::<Seq<char>>,
            }),
            forall|k: int| 0 <= k < members@.len() ==> (#[trigger] members@[k]) < i,
            forall|a: int, b: int| 0 <= a < b < members@.len() ==> (#[trigger] members@[a]) < (#[trigger] members@[b]),
            forall|x: int| 0 <= x < i ==> (event_selected(events@[x], match_id@, ty) <==> #[trigger] members@.contains(x as usize)),
        decreases events.len() - i,
    {
        proof {
            lemma_push_contains(members@, i);
            assert(!members@.contains(i));
        }
        let type_ok = match event_type {
            Some(t) => str_eq(events[i].event_type.as_str(), t),
            None => true,
        };
        if str_eq(events[i].match_id.as_str(), match_id) && type_ok {
            members.push(i);
        }
        i = i + 1;
    }
    members
}

/// The events of a match, earliest minute first.
pub fn match_events(events: &Vec<EventRecord>, match_id: &str) -> (order: Vec<usize>)
    ensures
        lists_by_minute(events@.len() as int, event_minutes(events@), |x: int| events@[x].match_id@ == match_id@, order@),
{
    let members = selected_events(events, match_id, None);
    let keys = minutes_of_events(events);
    sort_by_time(&keys, &members, false)
}

/// The events of one type in a match, earliest minute first.
pub fn events_by_type(events: &Vec<EventRecord>, match_id: &str, event_type: &str) -> (order: Vec<usize>)
    ensures
        lists_by_minute(
            events@.len() as int,
            event_minutes(events@),
            |x: int| events@[x].match_id@ == match_id@ && events@[x].event_type@ == event_type@,
            order@,
        ),
{
    let members = selected_events(events, match_id, Some(event_type));
    let keys = minutes_of_events(events);
    sort_by_time(&keys, &members, false)
}

/// The index of the latest entry among those listed by minute: `None` when
/// none is listed, otherwise one of the latest minute, the first stored.
pub open spec fn is_latest(keys: Seq<i64>, keep: spec_fn(int) -> bool, n: int, r: Option<usize>) -> bool {
    match r {
        None => forall|x: int| 0 <= x < n ==> !#[trigger] keep(x),
        Some(i) => {
            &&& 0 <= i < n
            &&& keep(i as int)
            &&& forall|x: int| 0 <= x < n && #[trigger] keep(x) ==> keys[x] <= keys[i as int]
            &&& forall|x: int| 0 <= x < i && #[trigger] keep(x) ==> keys[x] < keys[i as int]
        },
    }
}

/// The latest event of a match: one of the highest minute, the first
/// stored among those.
pub fn latest_event(events: &Vec<EventRecord>, match_id: &str) -> (r: Option<usize>)
    ensures
        is_latest(event_minutes(events@), |x: int| events@[x].match_id@ == match_id@, events@.len() as int, r),
{
    let ghost keys = event_minutes(events@);
    let mut best: Option<usize> = None;
    let mut i: usize = 0;
    while i < events.len()
        invariant
            i <= events@.len(),
            keys == event_minutes(events@),
            is_latest(keys, |x: int| events@[x].match_id@ == match_id@, i as int, best),
        decreases events.len() - i,
    {
        if str_eq(events[i].match_id.as_str(), match_id) {
            match best {
                None => {
                    best = Some(i);
                },
                Some(b) => {
                    if events[i].minute > events[b].minute {
                        best = Some(i);
                    }
                },
            }
        }
        i = i + 1;
    }
    best
}

/// The snapshots of a match, earliest minute first.
pub fn match_statistics(stats: &Vec<SnapshotRecord>, match_id: &str) -> (order: Vec<usize>)
    ensures
        lists_by_minute(stats@.len() as int, snapshot_minutes(stats@), |x: int| stats@[x].match_id@ == match_id@, order@),
{
    let mut members: Vec<usize> = Vec::new();
    let mut i: usize = 0;
    while i < stats.len()
        invariant
            i <= stats@.len(),
            forall|k: int| 0 <= k < members@.len() ==> (#[trigger] members@[k]) < i,
            forall|a: int, b: int| 0 <= a < b < members@.len() ==> (#[trigger] members@[a]) < (#[trigger] members@[b]),
            forall|x: int| 0 <= x < i ==> (stats@[x].match_id@ == match_id@ <==> #[trigger] members@.contains(x as usize)),
        decreases stats.len() - i,
    {
        proof {
            lemma_push_contains(members@, i);
            assert(!members@.contains(i));
        }
        if str_eq(stats[i].match_id.as_str(), match_id) {
            members.push(i);
        }
        i = i + 1;
    }
    let keys = minutes_of_snapshots(stats);
    sort_by_time(&keys, &members, false)
}

/// The latest snapshot of a match: one of the highest minute, the first
/// stored among those.
pub fn latest_statistics(stats: &Vec<SnapshotRecord>, match_id: &str) -> (r: Option<usize>)
    ensures
        is_latest(snapshot_minutes(stats@), |x: int| stats@[x].match_id@ == match_id@, stats@.len() as int, r),
{
    let ghost keys = snapshot_minutes(stats@);
    let mut best: Option<usize> = None;
    let mut i: usize = 0;
    while i < stats.len()
        invariant
            i <= stats@.len(),
            keys == snapshot_minutes(stats@),
            is_latest(keys, |x: int| stats@[x].match_id@ == match_id@, i as int, best),
        decreases stats.len() - i,
    {
        if str_eq(stats[i].match_id.as_str(), match_id) {
            match best {
                None => {
                    best = Some(i);
                },
                Some(b) => {
                    if stats[i].minute > stats[b].minute {
                        best = Some(i);
                    }
                },
            }
        }
        i = i + 1;
    }
    best
}

/// The snapshot of a match taken at a minute: the first stored, `None`
/// when there is none.
pub fn statistics_at_minute(stats: &Vec<SnapshotRecord>, match_id: &str, minute: i32) -> (r: Option<usize>)
    ensures
        match r {
            None => forall|x: int| 0 <= x < stats@.len()
                ==> !(#[trigger] stats@[x].match_id@ == match_id@ && stats@[x].minute == minute),
            Some(i) => i < stats@.len() && stats@[i as int].match_id@ == match_id@ && stats@[i as int].minute == minute
                && forall|x: int| 0 <= x < i ==> !(#[trigger] stats@[x].match_id@ == match_id@ && stats@[x].minute == minute),
        },
{
    let mut i: usize = 0;
    while i < stats.len()
        invariant
            i <= stats@.len(),
            forall|x: int| 0 <= x < i ==> !(#[trigger] stats@[x].match_id@ == match_id@ && stats@[x].minute == minute),
        decreases stats.len() - i,
    {
        if str_eq(stats[i].match_id.as_str(), match_id) && stats[i].minute == minute {
            return Some(i);
        }
        i = i + 1;
    }
    None
}

/// A whole number written in decimal, with a leading `-` when negative.
pub open spec fn signed_digits(n: int) -> Seq<char> {
    if n < 0 { "-"@ + digits((-n) as nat) } else { digits(n as nat) }
}

fn signed_to_string(n: i32) -> (s: String)
    ensures
        s@ == signed_digits(n as int),
{
    if n < 0 {
        let m: u64 = (0 - (n as i64)) as u64;
        let d = nat_to_string(m);
        concat("-", d.as_str())
    } else {
        nat_to_string(n as u64)
    }
}

/// What a request for a minute without a snapshot is told.
pub fn missing_minute_message(minute: i32) -> (s: String)
    ensures
        s@ == "No statistics found for minute "@ + signed_digits(minute as int),
{
    let d = signed_to_string(minute);
    concat("No statistics found for minute ", d.as_str())
}

/// What a bulk insertion of events reports.
pub fn added_events_message(n: u64) -> (s: String)
    ensures
        s@ == "Added "@ + digits(n as nat) + " events"@,
{
    let d = nat_to_string(n);
    let mut s = concat("Added ", d.as_str());
    s.append(" events");
    s
}

/// What a deletion of a match's events reports.
pub fn deleted_events_message(n: u64) -> (s: String)
    ensures
        s@ == "Deleted "@ + digits(n as nat) + " events"@,
{
    let d = nat_to_string(n);
    let mut s = concat("Deleted ", d.as_str());
    s.append(" events");
    s
}

/// The answer to deleting one event: whether it was there, and what the
/// caller is told.
pub fn event_deletion_outcome(deleted_count: u64) -> (r: (bool, &'static str))
    ensures
        r.0 == (deleted_count > 0),
        deleted_count == 0 ==> r.1@ == "Event not found"@,
        deleted_count > 0 ==> r.1@ == "Event deleted successfully"@,
{
    if deleted_count == 0 {
        (false, "Event not found")
    } else {
        (true, "Event deleted successfully")
    }
}

} // verus!
