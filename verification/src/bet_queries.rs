//! Listing and summing bets: the filters a bet listing takes, the order it
//! is shown in (newest first), and the totals over a set of bets.

use vstd::prelude::*;
use crate::errors::{AppError, is_missing_field};
use crate::order::{sort_by_time, lemma_push_contains, time_before};
use crate::text::str_eq;

verus! {

/// The filters of a bet listing; each one that is present must match.
#[derive(Debug, Clone)]
pub struct BetQuery {
    pub user_id: Option<String>,
    pub status: Option<String>,
    pub pledge_id: Option<String>,
    pub home_team: Option<String>,
    pub away_team: Option<String>,
}

/// A bet as a listing reads it. The pot is in cents; `created_at` is in
/// milliseconds since the epoch.
#[derive(Debug, Clone)]
pub struct BetRecord {
    pub starter_id: String,
    pub finisher_id: String,
    pub status: String,
    pub pledge_id: String,
    pub home_team: String,
    pub away_team: String,
    pub total_pot: i64,
    pub created_at: i64,
}

/// A filter that is absent matches anything; a present one matches its
/// own value.
pub open spec fn filter_matches(f: Option<String>, v: Seq<char>) -> bool {
    match f {
        Some(x) => x@ == v,
        None => true,
    }
}

/// Bet `b` passes every filter of `q`; the user filter matches either side.
pub open spec fn spec_matches_query(b: BetRecord, q: BetQuery) -> bool {
    &&& match q.user_id {
        Some(u) => b.starter_id@ == u@ || b.finisher_id@ == u@,
        None => true,
    }
    &&& filter_matches(q.status, b.status@)
    &&& filter_matches(q.pledge_id, b.pledge_id@)
    &&& filter_matches(q.home_team, b.home_team@)
    &&& filter_matches(q.away_team, b.away_team@)
}

fn filter_passes(f: &Option<String>, v: &String) -> (r: bool)
    ensures
        r == filter_matches(*f, v@),
{
    match f {
        Some(x) => str_eq(x.as_str(), v.as_str()),
        None => true,
    }
}

/// Whether bet `b` passes every filter of `q`.
pub fn matches_query(b: &BetRecord, q: &BetQuery) -> (r: bool)
    ensures
        r == spec_matches_query(*b, *q),
{
    let user_ok = match &q.user_id {
        Some(u) => str_eq(b.starter_id.as_str(), u.as_str()) || str_eq(b.finisher_id.as_str(), u.as_str()),
        None => true,
    };
    user_ok && filter_passes(&q.status, &b.status) && filter_passes(&q.pledge_id, &b.pledge_id)
        && filter_passes(&q.home_team, &b.home_team) && filter_passes(&q.away_team, &b.away_team)
}

/// Each filter of a listing reads its own field of the bet and nothing
/// else: a bet passes exactly when the user filter (if any) names one of
/// its two sides, and the status, pledge, home-team and away-team filters
/// (if any) equal its status, pledge, home team and away team.
pub proof fn law_filters_read_their_own_field(b: BetRecord, q: BetQuery)
    ensures
        spec_matches_query(b, q) == {
            &&& (q.user_id is None || q.user_id->0@ == b.starter_id@ || q.user_id->0@ == b.finisher_id@)
            &&& (q.status is None || q.status->0@ == b.status@)
            &&& (q.pledge_id is None || q.pledge_id->0@ == b.pledge_id@)
            &&& (q.home_team is None || q.home_team->0@ == b.home_team@)
            &&& (q.away_team is None || q.away_team->0@ == b.away_team@)
        },
{
}

/// With only the away-team filter set, a bet is listed exactly when its
/// away team is the one asked for, whatever its home team; two bets that
/// differ only in their home team are listed alike.
pub proof fn law_away_filter_reads_away_team(b: BetRecord, c: BetRecord, q: BetQuery)
    requires
        q.user_id is None,
        q.status is None,
        q.pledge_id is None,
        q.home_team is None,
        q.away_team is Some,
        c.away_team@ == b.away_team@,
    ensures
        spec_matches_query(b, q) == (b.away_team@ == q.away_team->0@),
        spec_matches_query(c, q) == spec_matches_query(b, q),
{
}

/// The creation times of the bets, in order.
pub open spec fn times(bets: Seq<BetRecord>) -> Seq<i64> {
    bets.map_values(|b: BetRecord| b.created_at)
}

fn creation_times(bets: &Vec<BetRecord>) -> (t: Vec<i64>)
    ensures
        t@ == times(bets@),
{
    let mut t: Vec<i64> = Vec::new();
    let mut i: usize = 0;
    while i < bets.len()
        invariant
            i <= bets@.len(),
            t@ == times(bets@.take(i as int)),
        decreases bets.len() - i,
    {
        t.push(bets[i].created_at);
        proof {
            assert(bets@.take(i + 1) =~= bets@.take(i as int).push(bets@[i as int]));
            assert(times(bets@.take(i + 1)) =~= times(bets@.take(i as int)).push(bets@[i as int].created_at));
        }
        i = i + 1;
    }
    proof {
        assert(bets@.take(bets@.len() as int) =~= bets@);
    }
    t
}

/// `order` lists exactly the bets (by index) for which `keep` holds, each
/// once, newest first, bets of equal time in stored order.
pub open spec fn lists_newest_first(bets: Seq<BetRecord>, keep: spec_fn(int) -> bool, order: Seq<usize>) -> bool {
    &&& forall|x: int| #![trigger keep(x)] 0 <= x < bets.len() ==> (keep(x) <==> order.contains(x as usize))
    &&& forall|i: int| 0 <= i < order.len() ==> (#[trigger] order[i]) < bets.len()
    &&& forall|i: int, j: int| 0 <= i < j < order.len()
        ==> time_before(times(bets), #[trigger] order[i] as int, #[trigger] order[j] as int, true)
}

/// Bets that pass the filters of `q`, newest first. Bets with the same
/// creation time keep their stored order.
pub fn list_bets(bets: &Vec<BetRecord>, q: &BetQuery) -> (order: Vec<usize>)
    ensures
        lists_newest_first(bets@, |x: int| spec_matches_query(bets@[x], *q), order@),
{
    let mut members: Vec<usize> = Vec::new();
    let mut i: usize = 0;
    while i < bets.len()
        invariant
            i <= bets@.len(),
            forall|k: int| 0 <= k < members@.len() ==> (#[trigger] members@[k]) < i,
            forall|a: int, b: int| 0 <= a < b < members@.len() ==> (#[trigger] members@[a]) < (#[trigger] members@[b]),
            forall|x: int| 0 <= x < i ==> (spec_matches_query(bets@[x], *q) <==> #[trigger] members@.contains(x as usize)),
        decreases bets.len() - i,
    {
        proof {
            lemma_push_contains(members@, i);
            assert(!members@.contains(i));
        }
        if matches_query(&bets[i], q) {
            members.push(i);
        }
        i = i + 1;
    }
    newest_first(bets, &members)
}

fn newest_first(bets: &Vec<BetRecord>, members: &Vec<usize>) -> (order: Vec<usize>)
    requires
        forall|k: int| 0 <= k < members@.len() ==> (#[trigger] members@[k]) < bets@.len(),
        forall|a: int, b: int| 0 <= a < b < members@.len() ==> (#[trigger] members@[a]) < (#[trigger] members@[b]),
    ensures
        forall|x: usize| #[trigger] order@.contains(x) <==> members@.contains(x),
        forall|i: int| 0 <= i < order@.len() ==> (#[trigger] order@[i]) < bets@.len(),
        forall|i: int, j: int| 0 <= i < j < order@.len()
            ==> time_before(times(bets@), #[trigger] order@[i] as int, #[trigger] order@[j] as int, true),
        order@.len() == members@.len(),
{
    let keys = creation_times(bets);
    sort_by_time(&keys, members, true)
}

/// The bets of a user (either side), newest first; the user filter is
/// required.
pub fn user_bets(bets: &Vec<BetRecord>, q: &BetQuery) -> (r: Result<Vec<usize>, AppError>)
    ensures
        q.user_id is None ==> (r matches Err(e) && is_missing_field(e, "user_id"@)),
        q.user_id matches Some(u) ==> (r matches Ok(order) && lists_newest_first(
            bets@,
            |x: int| bets@[x].starter_id@ == u@ || bets@[x].finisher_id@ == u@,
            order@,
        )),
{
    match &q.user_id {
        None => Err(AppError::MissingRequiredField(String::from_str("user_id"))),
        Some(u) => {
            let mut members: Vec<usize> = Vec::new();
            let mut i: usize = 0;
            while i < bets.len()
                invariant
                    i <= bets@.len(),
                    forall|k: int| 0 <= k < members@.len() ==> (#[trigger] members@[k]) < i,
                    forall|a: int, b: int| 0 <= a < b < members@.len() ==> (#[trigger] members@[a]) < (#[trigger] members@[b]),
                    forall|x: int| 0 <= x < i ==> ((bets@[x].starter_id@ == u@ || bets@[x].finisher_id@ == u@)
                        <==> #[trigger] members@.contains(x as usize)),
                decreases bets.len() - i,
            {
                proof {
                    lemma_push_contains(members@, i);
                    assert(!members@.contains(i));
                }
                if str_eq(bets[i].starter_id.as_str(), u.as_str()) || str_eq(bets[i].finisher_id.as_str(), u.as_str()) {
                    members.push(i);
                }
                i = i + 1;
            }
            Ok(newest_first(bets, &members))
        },
    }
}

/// How many bets the recent listing shows.
pub const RECENT_BETS: usize = 10;

/// The newest bets, at most `RECENT_BETS` of them: no bet left out is
/// newer than one shown.
pub fn recent_bets(bets: &Vec<BetRecord>) -> (r: Vec<usize>)
    ensures
        r@.len() == if bets@.len() < RECENT_BETS { bets@.len() } else { RECENT_BETS as nat },
        forall|i: int| 0 <= i < r@.len() ==> (#[trigger] r@[i]) < bets@.len(),
        forall|i: int, j: int| 0 <= i < j < r@.len()
            ==> time_before(times(bets@), #[trigger] r@[i] as int, #[trigger] r@[j] as int, true),
        forall|x: int, i: int| 0 <= x < bets@.len() && !(#[trigger] r@.contains(x as usize)) && 0 <= i < r@.len()
            ==> time_before(times(bets@), #[trigger] r@[i] as int, x, true),
{
    let mut members: Vec<usize> = Vec::new();
    let mut i: usize = 0;
    while i < bets.len()
        invariant
            i <= bets@.len(),
            members@.len() == i,
            forall|k: int| 0 <= k < i ==> #[trigger] members@[k] == k,
        decreases bets.len() - i,
    {
        members.push(i);
        i = i + 1;
    }
    let all = newest_first(bets, &members);
    let n = if all.len() < RECENT_BETS { all.len() } else { RECENT_BETS };
    let mut r: Vec<usize> = Vec::new();
    let mut k: usize = 0;
    while k < n
        invariant
            n <= all@.len(),
            k <= n,
            r@ == all@.take(k as int),
        decreases n - k,
    {
        r.push(all[k]);
        proof {
            assert(all@.take(k + 1) =~= all@.take(k as int).push(all@[k as int]));
        }
        k = k + 1;
    }
    proof {
        assert forall|x: int, i: int| 0 <= x < bets@.len() && !(#[trigger] r@.contains(x as usize)) && 0 <= i < r@.len()
            implies time_before(times(bets@), #[trigger] r@[i] as int, x, true) by {
            assert(members@[x] == x);
            assert(members@.contains(x as usize));
            assert(all@.contains(x as usize));
            let p = choose|p: int| 0 <= p < all@.len() && all@[p] == x as usize;
            if p < n {
                assert(r@[p] == x as usize);
            }
            assert(r@[i] == all@[i]);
        }
    }
    r
}

/// The totals over a set of bets.
#[derive(Debug, Clone)]
pub struct BetStats {
    pub total_bets: u64,
    pub active_bets: u64,
    pub completed_bets: u64,
    pub total_pot: i128,
}

/// Bet `b` is one of the fixture's bets that the statistics count: only
/// the team filters of `q` apply.
pub open spec fn counted(b: BetRecord, q: BetQuery) -> bool {
    filter_matches(q.home_team, b.home_team@) && filter_matches(q.away_team, b.away_team@)
}

/// How many of the counted bets have status `st` (any status when `st`
/// is `None`).
pub open spec fn count_with(s: Seq<BetRecord>, q: BetQuery, st: Option<Seq<char>>) -> nat
    decreases s.len(),
{
    if s.len() == 0 {
        0
    } else {
        let b = s.last();
        count_with(s.drop_last(), q, st) + (if counted(b, q) && (st matches Some(x) ==> b.status@ == x) { 1nat } else { 0nat })
    }
}

/// The sum of the pots of the counted bets.
pub open spec fn pot_sum(s: Seq<BetRecord>, q: BetQuery) -> int
    decreases s.len(),
{
    if s.len() == 0 {
        0
    } else {
        let b = s.last();
        pot_sum(s.drop_last(), q) + (if counted(b, q) { b.total_pot as int } else { 0 })
    }
}

proof fn lemma_pot_sum_bounded(s: Seq<BetRecord>, q: BetQuery)
    ensures
        -(s.len() as int) * 0x8000_0000_0000_0000 <= pot_sum(s, q) <= (s.len() as int) * 0x8000_0000_0000_0000,
        count_with(s, q, None) <= s.len(),
    decreases s.len(),
{
    if s.len() > 0 {
        lemma_pot_sum_bounded(s.drop_last(), q);
    }
}

/// The statistics of the bets that the team filters of `q` select: how
/// many, how many are active, how many completed, and the pots' sum.
pub fn bet_stats(bets: &Vec<BetRecord>, q: &BetQuery) -> (s: BetStats)
    requires
        bets@.len() < 0x1_0000_0000_0000_0000,
    ensures
        s.total_bets == count_with(bets@, *q, None),
        s.active_bets == count_with(bets@, *q, Some("active"@)),
        s.completed_bets == count_with(bets@, *q, Some("completed"@)),
        s.total_pot == pot_sum(bets@, *q),
{
    let mut total: u64 = 0;
    let mut active: u64 = 0;
    let mut completed: u64 = 0;
    let mut pot: i128 = 0;
    let mut i: usize = 0;
    while i < bets.len()
        invariant
            i <= bets@.len(),
            bets@.len() < 0x1_0000_0000_0000_0000,
            total == count_with(bets@.take(i as int), *q, None),
            active == count_with(bets@.take(i as int), *q, Some("active"@)),
            completed == count_with(bets@.take(i as int), *q, Some("completed"@)),
            pot == pot_sum(bets@.take(i as int), *q),
            active <= total,
            completed <= total,
        decreases bets.len() - i,
    {
        let b = &bets[i];
        proof {
            assert(bets@.take(i + 1).drop_last() =~= bets@.take(i as int));
            assert(bets@.take(i + 1).last() == bets@[i as int]);
            lemma_pot_sum_bounded(bets@.take(i as int), *q);
        }
        if filter_passes(&q.home_team, &b.home_team) && filter_passes(&q.away_team, &b.away_team) {
            total = total + 1;
            if str_eq(b.status.as_str(), "active") {
                active = active + 1;
            }
            if str_eq(b.status.as_str(), "completed") {
                completed = completed + 1;
            }
            pot = pot + b.total_pot as i128;
        }
        i = i + 1;
    }
    proof {
        assert(bets@.take(bets@.len() as int) =~= bets@);
    }
    BetStats { total_bets: total, active_bets: active, completed_bets: completed, total_pot: pot }
}

} // verus!
