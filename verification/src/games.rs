//! Fixtures: their statuses and how live updates move them, their results,
//! lineups, statistics and commentary, and the order in which upcoming
//! fixtures are listed. Times are milliseconds since the epoch unless said
//! otherwise.

use vstd::prelude::*;
use crate::errors::{AppError, is_validation_error};
use crate::text::{str_eq, concat};
use crate::money::{digits, push_digits};

verus! {

/// The statuses a fixture can be given.
pub open spec fn is_game_status(s: Seq<char>) -> bool {
    s == "upcoming"@ || s == "soon"@ || s == "live"@ || s == "completed"@
}

/// Checks a requested fixture status.
pub fn check_game_status(status: &str) -> (r: Result<(), AppError>)
    ensures
        is_game_status(status@) ==> r is Ok,
        !is_game_status(status@) ==> (r matches Err(e) && is_validation_error(e,
            "Invalid status. Must be one of: [\"upcoming\", \"soon\", \"live\", \"completed\"]"@)),
{
    if str_eq(status, "upcoming") || str_eq(status, "soon") || str_eq(status, "live") || str_eq(status, "completed") {
        Ok(())
    } else {
        Err(AppError::ValidationError(String::from_str(
            "Invalid status. Must be one of: [\"upcoming\", \"soon\", \"live\", \"completed\"]",
        )))
    }
}

/// An hour in milliseconds.
pub const HOUR_MS: i64 = 3600000;

/// The status a fixture is put in when `requested` arrives at `now`, given
/// its kickoff (`None`: the fixture is not found). `live` before kickoff is
/// turned into `soon` within the hour before kickoff, else `upcoming`; any
/// other request stands.
pub open spec fn spec_guarded_status(requested: Seq<char>, kickoff: Option<i64>, now: i64) -> Seq<char> {
    if requested == "live"@ && kickoff is Some && now < kickoff->0 {
        if now >= kickoff->0 - HOUR_MS { "soon"@ } else { "upcoming"@ }
    } else {
        requested
    }
}

/// A fixture's status and the two flags that follow it.
#[derive(Debug, Clone)]
pub struct StatusChange {
    pub status: String,
    pub is_live: bool,
    pub available_for_voting: bool,
}

/// A fixture is live in status `live`, and open for votes while `upcoming`
/// or `soon`.
pub open spec fn flags_follow(c: StatusChange) -> bool {
    &&& c.is_live == (c.status@ == "live"@)
    &&& c.available_for_voting == (c.status@ == "upcoming"@ || c.status@ == "soon"@)
}

/// The change a status request makes (see `spec_guarded_status`). A
/// fixture is never made live before its kickoff.
pub fn status_change(requested: &str, kickoff: Option<i64>, now: i64) -> (c: StatusChange)
    ensures
        c.status@ == spec_guarded_status(requested@, kickoff, now),
        flags_follow(c),
        kickoff matches Some(k) && now < k ==> c.status@ != "live"@,
{
    proof {
        reveal_strlit("live");
        reveal_strlit("soon");
        reveal_strlit("upcoming");
        assert("soon"@ != "live"@) by { assert("soon"@[0] != "live"@[0]); }
        assert("upcoming"@.len() != "live"@.len());
    }
    let status = if str_eq(requested, "live") {
        match kickoff {
            Some(k) => if now < k {
                if (now as i128) >= (k as i128) - (HOUR_MS as i128) {
                    String::from_str("soon")
                } else {
                    String::from_str("upcoming")
                }
            } else {
                String::from_str(requested)
            },
            None => String::from_str(requested),
        }
    } else {
        String::from_str(requested)
    };
    let is_live = str_eq(status.as_str(), "live");
    let available = str_eq(status.as_str(), "upcoming") || str_eq(status.as_str(), "soon");
    StatusChange { status, is_live, available_for_voting: available }
}

/// The result of a finished match by its score: `home`, `away` or `draw`.
pub open spec fn spec_result(home: int, away: int) -> Seq<char> {
    if home > away { "home"@ } else if away > home { "away"@ } else { "draw"@ }
}

/// A finished match's result follows its score and favours neither side:
/// `home` exactly when the home side scored more, `away` exactly when the
/// away side did, `draw` exactly when the scores are level; and swapping
/// the two scores swaps `home` and `away`.
pub proof fn law_result_follows_score(home: int, away: int)
    ensures
        (spec_result(home, away) == "home"@) == (home > away),
        (spec_result(home, away) == "away"@) == (away > home),
        (spec_result(home, away) == "draw"@) == (home == away),
        spec_result(away, home) == crate::votes::swap_sides(spec_result(home, away)),
{
    crate::votes::lemma_swap_sides("home"@, "away"@);
    reveal_strlit("home");
    reveal_strlit("away");
    reveal_strlit("draw");
    assert("home"@[0] != "away"@[0]);
    assert("home"@[0] != "draw"@[0]);
    assert("away"@[0] != "draw"@[0]);
}

/// The result of a finished match by its score.
pub fn result_from_scores(home: i32, away: i32) -> (r: &'static str)
    ensures
        r@ == spec_result(home as int, away as int),
{
    proof {
        reveal_strlit("home");
        reveal_strlit("away");
        reveal_strlit("draw");
    }
    if home > away {
        "home"
    } else if away > home {
        "away"
    } else {
        "draw"
    }
}

/// The status a live event moves a fixture to, before the kickoff guard:
/// `completed` at `match_end`, `live` otherwise.
pub open spec fn spec_event_status(event_type: Seq<char>) -> Seq<char> {
    if event_type == "match_end"@ { "completed"@ } else { "live"@ }
}

/// The change a live event makes at `now`, given the fixture's kickoff
/// (`None`: not found). A match end completes the fixture (not live, not
/// open for votes); any other event makes it live (not open for votes),
/// except before kickoff, when it is put in `soon` or `upcoming` as a
/// status request would be, not live, and open for votes.
pub fn live_event_change(event_type: &str, kickoff: Option<i64>, now: i64) -> (c: StatusChange)
    ensures
        c.status@ == spec_guarded_status(spec_event_status(event_type@), kickoff, now),
        event_type@ == "match_end"@ ==> !c.is_live && !c.available_for_voting,
        event_type@ != "match_end"@ && c.status@ == "live"@ ==> c.is_live && !c.available_for_voting,
        event_type@ != "match_end"@ && c.status@ != "live"@ ==> !c.is_live && c.available_for_voting,
        kickoff matches Some(k) && now < k ==> c.status@ != "live"@,
{
    proof {
        reveal_strlit("live");
        reveal_strlit("soon");
        reveal_strlit("upcoming");
        reveal_strlit("completed");
        reveal_strlit("match_end");
        assert("soon"@ != "live"@) by { assert("soon"@[0] != "live"@[0]); }
        assert("upcoming"@.len() != "live"@.len());
    }
    if str_eq(event_type, "match_end") {
        return StatusChange { status: String::from_str("completed"), is_live: false, available_for_voting: false };
    }
    match kickoff {
        Some(k) => if now < k {
            let corrected = if (now as i128) >= (k as i128) - (HOUR_MS as i128) {
                String::from_str("soon")
            } else {
                String::from_str("upcoming")
            };
            return StatusChange { status: corrected, is_live: false, available_for_voting: true };
        },
        None => {},
    }
    StatusChange { status: String::from_str("live"), is_live: true, available_for_voting: false }
}

/// A player as a lineup update sends it.
#[derive(Debug, Clone)]
pub struct PlayerPayload {
    pub name: String,
    pub position: String,
    pub jersey_number: i32,
    pub captain: bool,
    pub lineup: String,
    pub player_id: Option<String>,
}

/// A player as a fixture stores it.
#[derive(Debug, Clone)]
pub struct Player {
    pub name: String,
    pub position: String,
    pub jersey_number: i32,
    pub captain: bool,
    pub lineup: String,
    pub player_id: Option<String>,
    pub rating: Option<i32>,
}

/// A stored player keeps what was sent, with the given lineup when none was
/// named, and no rating yet.
pub open spec fn spec_player(p: PlayerPayload, q: Player, default_lineup: Seq<char>) -> bool {
    &&& q.name == p.name
    &&& q.position == p.position
    &&& q.jersey_number == p.jersey_number
    &&& q.captain == p.captain
    &&& q.lineup@ == (if p.lineup@.len() == 0 { default_lineup } else { p.lineup@ })
    &&& q.player_id == p.player_id
    &&& q.rating is None
}

/// Turns sent players into stored ones, in order (see `spec_player`).
pub fn map_players(players: Vec<PlayerPayload>, default_lineup: &str) -> (r: Vec<Player>)
    ensures
        r@.len() == players@.len(),
        forall|i: int| 0 <= i < r@.len() ==> spec_player(players@[i], #[trigger] r@[i], default_lineup@),
{
    let mut r: Vec<Player> = Vec::new();
    let mut i: usize = 0;
    while i < players.len()
        invariant
            i <= players@.len(),
            r@.len() == i,
            forall|k: int| 0 <= k < i ==> spec_player(players@[k], #[trigger] r@[k], default_lineup@),
        decreases players.len() - i,
    {
        let p = &players[i];
        let lineup = if p.lineup.unicode_len() == 0 { String::from_str(default_lineup) } else { p.lineup.clone() };
        r.push(Player {
            name: p.name.clone(),
            position: p.position.clone(),
            jersey_number: p.jersey_number,
            captain: p.captain,
            lineup,
            player_id: crate::bets::clone_opt(&p.player_id),
            rating: None,
        });
        proof {
            assert(r@[i as int].name@ == p.name@);
        }
        i = i + 1;
    }
    r
}

/// The first second of a day written `YYYY-MM-DD`, in seconds since the
/// epoch (UTC), as `chrono` reads it.
pub uninterp spec fn day_start_of(date: Seq<char>) -> Option<i64>;

/// The seconds since midnight of a time written `HH:MM`, as `chrono`
/// reads it.
pub uninterp spec fn time_of_day_of(time: Seq<char>) -> Option<i64>;

/// Calls `chrono::NaiveDate::parse_from_str` with the format `%Y-%m-%d` and
/// reads the day's first second as a UTC timestamp. The result is named
/// `day_start_of` of the text. `chrono`'s earliest date is 1 January of the
/// year -262143, whose first second is `EARLIEST_DAY_START`, and its latest
/// lies about 262,000 years after year 0, within 10^13 seconds of the epoch.
#[verifier::external_body]
fn parse_day(date: &str) -> (r: Option<i64>)
    ensures
        r == day_start_of(date@),
        r matches Some(t) ==> EARLIEST_DAY_START <= t <= 10_000_000_000_000,
{
    chrono::NaiveDate::parse_from_str(date, "%Y-%m-%d").ok().map(|d| d.and_time(chrono::NaiveTime::MIN).and_utc().timestamp())
}

/// Calls `chrono::NaiveTime::parse_from_str` with the format `%H:%M` and
/// reads the seconds since midnight, which `chrono` keeps below a day.
#[verifier::external_body]
fn parse_time_of_day(time: &str) -> (r: Option<i64>)
    ensures
        r == time_of_day_of(time@),
        r matches Some(s) ==> 0 <= s < 86400,
{
    chrono::NaiveTime::parse_from_str(time, "%H:%M").ok().map(|t| chrono::Timelike::num_seconds_from_midnight(&t) as i64)
}

/// East Africa Time, in which fixture dates and times are written: three
/// hours ahead of UTC.
pub const EAT_OFFSET_SECS: i64 = 10800;

/// The first second of the earliest day `chrono` represents (1 January of
/// the year -262143), in seconds since the epoch.
pub const EARLIEST_DAY_START: i64 = -8_334_601_228_800;

/// The kickoff, in seconds since the epoch, of a fixture dated `date` at
/// `time` East Africa Time; none when either does not read, or when the
/// instant falls before the earliest one `chrono` represents (a time before
/// 03:00 on its earliest day).
pub open spec fn spec_kickoff(date: Seq<char>, time: Seq<char>) -> Option<i64> {
    match (day_start_of(date), time_of_day_of(time)) {
        (Some(d), Some(t)) => if d + t - EAT_OFFSET_SECS >= EARLIEST_DAY_START {
            Some((d + t - EAT_OFFSET_SECS) as i64)
        } else {
            None
        },
        _ => None,
    }
}

/// Reads a fixture's kickoff (see `spec_kickoff`).
pub fn parse_kickoff_utc(date: &str, time: &str) -> (r: Option<i64>)
    ensures
        r == spec_kickoff(date@, time@),
        r matches Some(k) ==> k == day_start_of(date@)->0 + time_of_day_of(time@)->0 - EAT_OFFSET_SECS,
{
    let d = match parse_day(date) {
        None => return None,
        Some(d) => d,
    };
    let t = match parse_time_of_day(time) {
        None => return None,
        Some(t) => t,
    };
    let k = d + t - EAT_OFFSET_SECS;
    if k < EARLIEST_DAY_START {
        return None;
    }
    Some(k)
}

/// How long a match is taken to last: 120 minutes, in seconds.
pub const MATCH_DURATION_SECS: i64 = 7200;

/// An upcoming fixture as the list orders it.
#[derive(Debug, Clone)]
pub struct UpcomingFixture {
    pub date_iso: String,
    pub time: String,
}

/// A fixture is likely over when it kicked off more than a match's length
/// before `now` (seconds); one whose kickoff does not read is not.
pub open spec fn likely_over(f: UpcomingFixture, now: i64) -> bool {
    spec_kickoff(f.date_iso@, f.time@) matches Some(k) && k + MATCH_DURATION_SECS < now
}

/// The key upcoming fixtures are ordered by: `date time`.
pub open spec fn upcoming_key(f: UpcomingFixture) -> Seq<char> {
    f.date_iso@ + " "@ + f.time@
}

/// The order of the upcoming fixtures list at `now` (seconds): first the
/// fixtures not likely over, by kickoff key ascending, then those likely
/// over, by kickoff key descending; fixtures with equal keys keep their
/// order. The result lists indices into `fixtures`.
pub fn upcoming_order(fixtures: &Vec<UpcomingFixture>, now: i64) -> (r: Vec<usize>)
    ensures
        exists|a: Seq<usize>, b: Seq<usize>| r@ == a + b
            && crate::order::is_text_order(fixtures@.map_values(|f: UpcomingFixture| upcoming_key(f)),
                Seq::new(fixtures@.len(), |i: int| i as usize).filter(|i: usize| !likely_over(fixtures@[i as int], now)), a, false)
            && crate::order::is_text_order(fixtures@.map_values(|f: UpcomingFixture| upcoming_key(f)),
                Seq::new(fixtures@.len(), |i: int| i as usize).filter(|i: usize| likely_over(fixtures@[i as int], now)), b, true),
{
    let ghost all = Seq::new(fixtures@.len(), |i: int| i as usize);
    let ghost pa = |i: usize| !likely_over(fixtures@[i as int], now);
    let ghost pb = |i: usize| likely_over(fixtures@[i as int], now);
    let mut keys: Vec<String> = Vec::new();
    let mut early: Vec<usize> = Vec::new();
    let mut late: Vec<usize> = Vec::new();
    let mut i: usize = 0;
    while i < fixtures.len()
        invariant
            i <= fixtures@.len(),
            all == Seq::new(fixtures@.len(), |i: int| i as usize),
            pa == (|i: usize| !likely_over(fixtures@[i as int], now)),
            pb == (|i: usize| likely_over(fixtures@[i as int], now)),
            keys@.len() == i,
            forall|j: int| 0 <= j < i ==> (#[trigger] keys@[j])@ == upcoming_key(fixtures@[j]),
            early@ == all.take(i as int).filter(pa),
            late@ == all.take(i as int).filter(pb),
            forall|j: int| 0 <= j < early@.len() ==> (#[trigger] early@[j]) < i,
            forall|j: int| 0 <= j < late@.len() ==> (#[trigger] late@[j]) < i,
            forall|j: int, k: int| 0 <= j < k < early@.len() ==> (#[trigger] early@[j]) < (#[trigger] early@[k]),
            forall|j: int, k: int| 0 <= j < k < late@.len() ==> (#[trigger] late@[j]) < (#[trigger] late@[k]),
        decreases fixtures.len() - i,
    {
        let f = &fixtures[i];
        let mut key = concat(f.date_iso.as_str(), " ");
        key.append(f.time.as_str());
        keys.push(key);
        let over = match parse_kickoff_utc(f.date_iso.as_str(), f.time.as_str()) {
            Some(k) => (k as i128) + (MATCH_DURATION_SECS as i128) < (now as i128),
            None => false,
        };
        proof {
            reveal_with_fuel(Seq::<_>::filter, 1);
            assert(all.take(i + 1).drop_last() =~= all.take(i as int));
            assert(all.take(i + 1).last() == i);
        }
        if over {
            late.push(i);
        } else {
            early.push(i);
        }
        i = i + 1;
    }
    proof {
        assert(all.take(fixtures@.len() as int) =~= all);
        assert(crate::text::views(keys@) =~= fixtures@.map_values(|f: UpcomingFixture| upcoming_key(f)));
    }
    let a = crate::order::order_by_text(&keys, &early, false);
    let b = crate::order::order_by_text(&keys, &late, true);
    let mut r = a.clone();
    let mut j: usize = 0;
    while j < b.len()
        invariant
            j <= b@.len(),
            r@ == a@ + b@.take(j as int),
        decreases b.len() - j,
    {
        r.push(b[j]);
        proof {
            assert(r@ =~= a@ + b@.take(j + 1));
        }
        j = j + 1;
    }
    proof {
        assert(b@.take(b@.len() as int) =~= b@);
    }
    r
}

/// A requested fixture status.
#[derive(Debug, Clone)]
pub struct GameStatusUpdate {
    pub status: String,
}

/// A test notification relayed from the match poller.
#[derive(Debug, Clone)]
pub struct TestNotificationRequest {
    pub kind: String,
    pub message: String,
    pub timestamp: String,
}

/// A commentary line on a fixture; `body` is the line as sent, and
/// `created_at` the moment it was stored.
#[derive(Debug, Clone)]
pub struct CommentaryEntry {
    pub body: String,
    pub created_at: i64,
}

/// A commentary line to add to a fixture.
#[derive(Debug, Clone)]
pub struct CommentaryUpdate {
    pub match_id: String,
    pub entry: CommentaryEntry,
}

/// Several commentary lines to add to a fixture.
#[derive(Debug, Clone)]
pub struct CommentaryBulkUpdate {
    pub match_id: String,
    pub entries: Vec<CommentaryEntry>,
}

/// A fixture's commentary: its lines, the count it records, and when the
/// last line was stored.
#[derive(Debug, Clone)]
pub struct CommentaryLog {
    pub entries: Vec<CommentaryEntry>,
    pub count: i64,
    pub last_at: Option<i64>,
}

/// The recorded count is the number of lines.
pub open spec fn log_consistent(l: CommentaryLog) -> bool {
    l.count == l.entries@.len()
}

/// A line as stored at time `t`: its text as sent, stamped `t`.
pub open spec fn stamped(e: CommentaryEntry, t: i64) -> CommentaryEntry {
    CommentaryEntry { body: e.body, created_at: t }
}

fn stamp(e: &CommentaryEntry, t: i64) -> (r: CommentaryEntry)
    ensures
        r == stamped(*e, t),
{
    CommentaryEntry { body: e.body.clone(), created_at: t }
}

impl CommentaryLog {
    /// Stores one line at `now`: it is appended stamped `now`, the count
    /// goes up by one and `now` is the time of the last line.
    pub fn add_entry(&mut self, e: &CommentaryEntry, now: i64)
        requires
            old(self).count < i64::MAX,
        ensures
            final(self).entries@ == old(self).entries@.push(stamped(*e, now)),
            final(self).count == old(self).count + 1,
            final(self).last_at == Some(now),
    {
        self.entries.push(stamp(e, now));
        self.count = self.count + 1;
        self.last_at = Some(now);
    }

    /// Stores several lines, each stamped with the time in `stamps` at its
    /// position, and `now` as the time of the last line; the count goes up
    /// by the number of lines. Nothing changes when there are none. The
    /// result is the number of lines stored.
    pub fn add_entries(&mut self, es: &Vec<CommentaryEntry>, stamps: &Vec<i64>, now: i64) -> (n: usize)
        requires
            stamps@.len() == es@.len(),
            old(self).count + es@.len() <= i64::MAX,
        ensures
            n == es@.len(),
            es@.len() == 0 ==> *final(self) == *old(self),
            es@.len() > 0 ==> {
                &&& final(self).entries@.len() == old(self).entries@.len() + es@.len()
                &&& final(self).entries@.take(old(self).entries@.len() as int) == old(self).entries@
                &&& forall|i: int| 0 <= i < es@.len()
                    ==> #[trigger] final(self).entries@[old(self).entries@.len() + i] == stamped(es@[i], stamps@[i])
                &&& final(self).count == old(self).count + es@.len()
                &&& final(self).last_at == Some(now)
            },
    {
        if es.len() == 0 {
            return 0;
        }
        let ghost start = self.entries@;
        let ghost c0 = self.count;
        let mut i: usize = 0;
        while i < es.len()
            invariant
                stamps@.len() == es@.len(),
                self.count == c0,
                c0 + es@.len() <= i64::MAX,
                i <= es@.len(),
                self.entries@.len() == start.len() + i,
                self.entries@.take(start.len() as int) == start,
                forall|k: int| 0 <= k < i ==> #[trigger] self.entries@[start.len() + k] == stamped(es@[k], stamps@[k]),
            decreases es.len() - i,
        {
            let ghost before = self.entries@;
            self.entries.push(stamp(&es[i], stamps[i]));
            proof {
                assert(self.entries@.take(start.len() as int) =~= before.take(start.len() as int));
                assert forall|k: int| 0 <= k < i + 1 implies #[trigger] self.entries@[start.len() + k] == stamped(es@[k], stamps@[k]) by {
                    if k < i {
                        assert(self.entries@[start.len() + k] == before[start.len() + k]);
                    }
                }
            }
            i = i + 1;
        }
        self.count = (self.count as i128 + es.len() as i128) as i64;
        self.last_at = Some(now);
        es.len()
    }
}

/// Storing commentary keeps the recorded count equal to the number of
/// lines: a log whose count is right stays right after one line or many.
pub proof fn law_commentary_count_matches_lines(before: CommentaryLog, after: CommentaryLog, added: nat)
    requires
        log_consistent(before),
        after.entries@.len() == before.entries@.len() + added,
        after.count == before.count + added,
    ensures
        log_consistent(after),
{
}

/// How many commentary lines to show.
#[derive(Debug, Clone)]
pub struct LatestCommentaryQuery {
    pub limit: Option<i64>,
}

/// The number of lines a commentary request shows: as asked (20 when not
/// asked); a negative number, read as an unsigned count, shows them all.
pub open spec fn commentary_limit(q: LatestCommentaryQuery, total: nat) -> nat {
    let l = match q.limit { Some(x) => x as int, None => 20 };
    if l < 0 || l >= total { total } else { l as nat }
}

/// Line `a` is shown before line `b` (indices into the times): it was
/// stored later, or at the same moment and listed first.
pub open spec fn newer_first(t: Seq<i64>, a: int, b: int) -> bool {
    t[a] > t[b] || (t[a] == t[b] && a < b)
}

/// The latest commentary lines: the indices of the lines, newest first
/// (lines stored at the same moment keep their order), cut to the limit.
pub fn latest_commentary(created_at: &Vec<i64>, q: &LatestCommentaryQuery) -> (r: Vec<usize>)
    ensures
        r@.len() == commentary_limit(*q, created_at@.len()),
        forall|i: int| 0 <= i < r@.len() ==> (#[trigger] r@[i]) < created_at@.len(),
        forall|i: int, j: int| 0 <= i < j < r@.len() ==> newer_first(created_at@, #[trigger] r@[i] as int, #[trigger] r@[j] as int),
        forall|x: int, i: int| 0 <= x < created_at@.len() && !r@.contains(x as usize) && 0 <= i < r@.len()
            ==> #[trigger] newer_first(created_at@, r@[i] as int, x),
{
    let mut order: Vec<usize> = Vec::new();
    let mut k: usize = 0;
    while k < created_at.len()
        invariant
            k <= created_at@.len(),
            order@.len() == k,
            forall|i: int| 0 <= i < order@.len() ==> (#[trigger] order@[i]) < k,
            forall|i: int, j: int| 0 <= i < j < order@.len() ==> newer_first(created_at@, #[trigger] order@[i] as int, #[trigger] order@[j] as int),
            forall|x: int| 0 <= x < k ==> #[trigger] order@.contains(x as usize),
        decreases created_at.len() - k,
    {
        let t = created_at[k];
        let mut p: usize = 0;
        while p < order.len() && created_at[order[p]] >= t
            invariant
                p <= order@.len(),
                k < created_at@.len(),
                t == created_at@[k as int],
                forall|i: int| 0 <= i < order@.len() ==> (#[trigger] order@[i]) < k,
                forall|q: int| 0 <= q < p ==> created_at@[#[trigger] order@[q] as int] >= t,
            decreases order.len() - p,
        {
            p = p + 1;
        }
        let ghost old_order = order@;
        order.insert(p, k);
        proof {
            assert forall|i: int| 0 <= i < order@.len() implies (#[trigger] order@[i]) < k + 1 by {
                if i < p { assert(order@[i] == old_order[i]); }
                else if i > p { assert(order@[i] == old_order[i - 1]); }
            }
            assert forall|x: int| 0 <= x < k + 1 implies #[trigger] order@.contains(x as usize) by {
                if x == k {
                    assert(order@[p as int] == k);
                } else {
                    assert(old_order.contains(x as usize));
                    let j = choose|j: int| 0 <= j < old_order.len() && old_order[j] == x as usize;
                    if j < p { assert(order@[j] == old_order[j]); } else { assert(order@[j + 1] == old_order[j]); }
                }
            }
            assert forall|i: int, j: int| 0 <= i < j < order@.len() implies newer_first(created_at@, #[trigger] order@[i] as int, #[trigger] order@[j] as int) by {
                if j < p {
                    assert(order@[i] == old_order[i] && order@[j] == old_order[j]);
                } else if j == p {
                    assert(order@[i] == old_order[i]);
                } else if i == p {
                    assert(order@[j] == old_order[j - 1]);
                    assert(p < old_order.len());
                    if j - 1 > p {
                        assert(newer_first(created_at@, old_order[p as int] as int, old_order[j - 1] as int));
                    }
                } else if i < p {
                    assert(order@[i] == old_order[i] && order@[j] == old_order[j - 1]);
                } else {
                    assert(order@[i] == old_order[i - 1] && order@[j] == old_order[j - 1]);
                }
            }
        }
        k = k + 1;
    }
    let n = order.len();
    let lim: usize = match q.limit {
        Some(x) => if x < 0 || x as u64 >= n as u64 { n } else { x as usize },
        None => if 20 >= n { n } else { 20 },
    };
    let mut r: Vec<usize> = Vec::new();
    let mut i: usize = 0;
    while i < lim
        invariant
            lim <= order@.len(),
            i <= lim,
            r@ == order@.take(i as int),
        decreases lim - i,
    {
        r.push(order[i]);
        proof {
            assert(r@ =~= order@.take(i + 1));
        }
        i = i + 1;
    }
    proof {
        // every index appears in the full order, so one left out comes after the kept ones
        assert forall|x: int, i: int| 0 <= x < created_at@.len() && !r@.contains(x as usize) && 0 <= i < r@.len()
            implies #[trigger] newer_first(created_at@, r@[i] as int, x) by {
            assert(order@.contains(x as usize));
            let pos = choose|pos: int| 0 <= pos < order@.len() && order@[pos] == x as usize;
            if pos < lim {
                assert(r@[pos] == x as usize);
            }
            assert(r@[i] == order@[i]);
            assert(i < pos);
        }
    }
    r
}

/// What archiving a completed fixture answers: it is moved when found
/// completed; otherwise a fixture already in the history is reported as
/// such, and any other is not found.
pub fn history_move_outcome(match_id: &str, found_completed: bool, in_history: bool) -> (r: Result<String, AppError>)
    ensures
        found_completed ==> (r matches Ok(m) && m@ == "Game "@ + match_id@ + " moved to history"@),
        !found_completed && in_history ==> (r matches Ok(m) && m@ == "Game "@ + match_id@ + " already moved to history"@),
        !found_completed && !in_history ==> r == Err::<String, AppError>(AppError::DocumentNotFound),
{
    if found_completed {
        let mut m = concat("Game ", match_id);
        m.append(" moved to history");
        Ok(m)
    } else if in_history {
        let mut m = concat("Game ", match_id);
        m.append(" already moved to history");
        Ok(m)
    } else {
        Err(AppError::DocumentNotFound)
    }
}

/// The report of a cleanup of stale completed fixtures.
pub fn stale_cleanup_message(moved: u64) -> (s: String)
    ensures
        s@ == "Moved "@ + digits(moved as nat) + " stale games to history"@,
{
    let mut s = String::from_str("Moved ");
    push_digits(&mut s, moved);
    s.append(" stale games to history");
    s
}

/// Filters of the archived fixture list.
#[derive(Debug, Clone)]
pub struct HistoryQuery {
    pub limit: Option<i64>,
    pub skip: Option<u64>,
    pub league: Option<String>,
    pub home_team: Option<String>,
    pub away_team: Option<String>,
    pub from_date: Option<String>,
    pub to_date: Option<String>,
}

/// The window of the archived fixture list: how many (50 when not asked),
/// how many to skip (none when not asked), and the completion times it is
/// bounded by, in seconds: from the first second of `from_date`, up to the
/// last second of `to_date`; a date that does not read sets no bound.
#[derive(Debug, Clone, Copy, PartialEq, Eq, Structural)]
pub struct HistoryWindow {
    pub limit: i64,
    pub skip: u64,
    pub completed_from: Option<i64>,
    pub completed_to: Option<i64>,
}

/// The window a history query asks for.
pub fn history_window(q: &HistoryQuery) -> (w: HistoryWindow)
    ensures
        w.limit == match q.limit { Some(l) => l, None => 50 },
        w.skip == match q.skip { Some(x) => x, None => 0 },
        w.completed_from == match q.from_date {
            Some(d) => day_start_of(d@),
            None => None,
        },
        w.completed_to == match q.to_date {
            Some(d) => match day_start_of(d@) { Some(t) => Some((t + 86399) as i64), None => None },
            None => None,
        },
{
    let from = match &q.from_date {
        Some(d) => parse_day(d.as_str()),
        None => None,
    };
    let to = match &q.to_date {
        Some(d) => match parse_day(d.as_str()) {
            Some(t) => Some(t + 86399),
            None => None,
        },
        None => None,
    };
    HistoryWindow {
        limit: match q.limit { Some(l) => l, None => 50 },
        skip: match q.skip { Some(x) => x, None => 0 },
        completed_from: from,
        completed_to: to,
    }
}

/// The statistics snapshot taken at `minute`: the first one recorded for
/// that minute, if any (an index into the snapshot minutes).
pub fn snapshot_at_minute(minutes: &Vec<i32>, minute: i32) -> (r: Option<usize>)
    ensures
        match r {
            Some(i) => i < minutes@.len() && minutes@[i as int] == minute
                && forall|j: int| 0 <= j < i ==> minutes@[j] != minute,
            None => forall|j: int| 0 <= j < minutes@.len() ==> minutes@[j] != minute,
        },
{
    let mut i: usize = 0;
    while i < minutes.len()
        invariant
            i <= minutes@.len(),
            forall|j: int| 0 <= j < i ==> minutes@[j] != minute,
        decreases minutes.len() - i,
    {
        if minutes[i] == minute {
            return Some(i);
        }
        i = i + 1;
    }
    None
}

/// How many of `s` read `sel`.
pub open spec fn count_selection(s: Seq<String>, sel: Seq<char>) -> nat
    decreases s.len(),
{
    if s.len() == 0 { 0 } else { count_selection(s.drop_last(), sel) + if s.last()@ == sel { 1nat } else { 0nat } }
}

/// A fixture's votes by side: `home_team`, `draw` and `away_team`.
pub fn voter_breakdown(selections: &Vec<String>) -> (r: (u64, u64, u64))
    ensures
        r.0 == count_selection(selections@, "home_team"@),
        r.1 == count_selection(selections@, "draw"@),
        r.2 == count_selection(selections@, "away_team"@),
{
    let mut h: u64 = 0;
    let mut d: u64 = 0;
    let mut a: u64 = 0;
    let mut i: usize = 0;
    while i < selections.len()
        invariant
            i <= selections@.len(),
            h == count_selection(selections@.take(i as int), "home_team"@),
            d == count_selection(selections@.take(i as int), "draw"@),
            a == count_selection(selections@.take(i as int), "away_team"@),
            h <= i && d <= i && a <= i,
        decreases selections.len() - i,
    {
        proof {
            assert(selections@.take(i + 1).drop_last() =~= selections@.take(i as int));
            assert(selections@.take(i + 1).last() == selections@[i as int]);
        }
        let x = selections[i].as_str();
        if str_eq(x, "home_team") {
            h = h + 1;
        }
        if str_eq(x, "draw") {
            d = d + 1;
        }
        if str_eq(x, "away_team") {
            a = a + 1;
        }
        i = i + 1;
    }
    proof {
        assert(selections@.take(selections@.len() as int) =~= selections@);
    }
    (h, d, a)
}

} // verus!
