//! Fixture votes: which counter a selection moves, how a vote is scored
//! once the result is known, and how a channel's votes are tallied.

use vstd::prelude::*;
use crate::text::{str_eq, contains_str};
use crate::errors::{AppError, is_validation_error, is_invalid_object_id};
use crate::ids::{is_object_id, object_id_error_text, check_object_id};

verus! {

/// One of the three per-fixture vote counters.
#[derive(Debug, Clone, Copy, PartialEq, Eq, Structural)]
pub enum VoteField {
    Home,
    Away,
    Draw,
}

/// The counter a strict selection (`home`, `away` or `draw`) moves.
pub open spec fn spec_vote_field(sel: Seq<char>) -> Option<VoteField> {
    if sel == "home"@ {
        Some(VoteField::Home)
    } else if sel == "away"@ {
        Some(VoteField::Away)
    } else if sel == "draw"@ {
        Some(VoteField::Draw)
    } else {
        None
    }
}

/// The counter a selection moves when both spellings are accepted
/// (`home_team` or `home`, `away_team` or `away`, `draw`).
pub open spec fn spec_vote_field_lenient(sel: Seq<char>) -> Option<VoteField> {
    if sel == "home_team"@ || sel == "home"@ {
        Some(VoteField::Home)
    } else if sel == "away_team"@ || sel == "away"@ {
        Some(VoteField::Away)
    } else if sel == "draw"@ {
        Some(VoteField::Draw)
    } else {
        None
    }
}

/// The counter moved by a vote for `selection`; `None` when the selection
/// is not one of `home`, `away`, `draw`.
pub fn vote_field(selection: &str) -> (r: Option<VoteField>)
    ensures
        r == spec_vote_field(selection@),
{
    if str_eq(selection, "home") {
        Some(VoteField::Home)
    } else if str_eq(selection, "away") {
        Some(VoteField::Away)
    } else if str_eq(selection, "draw") {
        Some(VoteField::Draw)
    } else {
        None
    }
}

/// The counter a stored vote moves back on rollback; stored votes may use
/// either spelling.
pub fn vote_field_lenient(selection: &str) -> (r: Option<VoteField>)
    ensures
        r == spec_vote_field_lenient(selection@),
{
    if str_eq(selection, "home_team") || str_eq(selection, "home") {
        Some(VoteField::Home)
    } else if str_eq(selection, "away_team") || str_eq(selection, "away") {
        Some(VoteField::Away)
    } else if str_eq(selection, "draw") {
        Some(VoteField::Draw)
    } else {
        None
    }
}

/// The dotted document path of a counter, as stored with a channel fixture.
pub fn vote_field_path(f: VoteField) -> (r: &'static str)
    ensures
        r@ == match f {
            VoteField::Home => "vote_counts.home"@,
            VoteField::Away => "vote_counts.away"@,
            VoteField::Draw => "vote_counts.draw"@,
        },
{
    proof {
        reveal_strlit("vote_counts.home");
        reveal_strlit("vote_counts.away");
        reveal_strlit("vote_counts.draw");
    }
    match f {
        VoteField::Home => "vote_counts.home",
        VoteField::Away => "vote_counts.away",
        VoteField::Draw => "vote_counts.draw",
    }
}

/// The spelling a selection is stored under: `home` becomes `home_team`,
/// `away` becomes `away_team`; anything else is kept.
pub open spec fn spec_display_selection(sel: Seq<char>) -> Seq<char> {
    if sel == "home"@ {
        "home_team"@
    } else if sel == "away"@ {
        "away_team"@
    } else if sel == "draw"@ {
        "draw"@
    } else {
        sel
    }
}

/// The stored spelling of a selection.
pub fn display_selection(selection: &str) -> (r: String)
    ensures
        r@ == spec_display_selection(selection@),
{
    if str_eq(selection, "home") {
        String::from_str("home_team")
    } else if str_eq(selection, "away") {
        String::from_str("away_team")
    } else if str_eq(selection, "draw") {
        String::from_str("draw")
    } else {
        String::from_str(selection)
    }
}

/// The three counters of a fixture in a channel.
#[derive(Debug, Clone, Copy, PartialEq, Eq, Structural)]
pub struct VoteCounts {
    pub home: i32,
    pub away: i32,
    pub draw: i32,
}

/// The counters after adding `delta` to counter `f`.
pub open spec fn spec_bump(c: VoteCounts, f: VoteField, delta: int) -> VoteCounts {
    match f {
        VoteField::Home => VoteCounts { home: (c.home + delta) as i32, ..c },
        VoteField::Away => VoteCounts { away: (c.away + delta) as i32, ..c },
        VoteField::Draw => VoteCounts { draw: (c.draw + delta) as i32, ..c },
    }
}

/// The value of counter `f`.
pub open spec fn spec_count(c: VoteCounts, f: VoteField) -> int {
    match f {
        VoteField::Home => c.home as int,
        VoteField::Away => c.away as int,
        VoteField::Draw => c.draw as int,
    }
}

impl VoteCounts {
    /// All counters at zero.
    pub fn zero() -> (c: VoteCounts)
        ensures
            c.home == 0 && c.away == 0 && c.draw == 0,
    {
        VoteCounts { home: 0, away: 0, draw: 0 }
    }

    /// The number of votes over the three counters.
    pub fn total(&self) -> (t: i64)
        ensures
            t == self.home + self.away + self.draw,
    {
        self.home as i64 + self.away as i64 + self.draw as i64
    }

    /// Counts one more vote on `f` (a cast vote).
    pub fn record(&mut self, f: VoteField)
        requires
            spec_count(*old(self), f) < i32::MAX,
        ensures
            *final(self) == spec_bump(*old(self), f, 1),
    {
        match f {
            VoteField::Home => self.home = self.home + 1,
            VoteField::Away => self.away = self.away + 1,
            VoteField::Draw => self.draw = self.draw + 1,
        }
    }

    /// Counts one vote less on `f` (a rolled-back vote).
    pub fn unrecord(&mut self, f: VoteField)
        requires
            spec_count(*old(self), f) > i32::MIN,
        ensures
            *final(self) == spec_bump(*old(self), f, -1),
    {
        match f {
            VoteField::Home => self.home = self.home - 1,
            VoteField::Away => self.away = self.away - 1,
            VoteField::Draw => self.draw = self.draw - 1,
        }
    }
}

/// Rolling back a vote undoes casting it: counting a vote on a counter and
/// then counting it off again leaves every counter as it was.
pub proof fn law_rollback_undoes_vote(c: VoteCounts, f: VoteField)
    requires
        spec_count(c, f) < i32::MAX,
    ensures
        spec_bump(spec_bump(c, f, 1), f, -1) == c,
{
}

/// Points awarded for a vote on `sel` once the result `res` is known.
pub open spec fn spec_points(sel: Seq<char>, res: Seq<char>) -> int {
    if sel == res {
        3
    } else if sel == "draw"@ && res != "draw"@ {
        -1
    } else if sel != "draw"@ && res == "draw"@ {
        -1
    } else {
        -3
    }
}

/// The points a vote earns: 3 for the right call, -1 when exactly one of
/// the selection and the result is a draw, -3 otherwise.
pub fn calculate_points(selection: &str, result: &str) -> (p: i32)
    ensures
        p == spec_points(selection@, result@),
{
    let sel_draw = str_eq(selection, "draw");
    let res_draw = str_eq(result, "draw");
    if str_eq(selection, result) {
        3
    } else if sel_draw && !res_draw {
        -1
    } else if !sel_draw && res_draw {
        -1
    } else {
        -3
    }
}

/// A vote earns 3 points exactly when it matches the result, and otherwise
/// loses 1 or 3.
pub proof fn law_points_reward_correct_votes(sel: Seq<char>, res: Seq<char>)
    ensures
        (spec_points(sel, res) == 3) == (sel == res),
        spec_points(sel, res) == 3 || spec_points(sel, res) == -1 || spec_points(sel, res) == -3,
{
}

/// The other side of a match: `home` and `away` swapped, anything else
/// (such as `draw`) kept.
pub open spec fn swap_sides(s: Seq<char>) -> Seq<char> {
    if s == "home"@ { "away"@ } else if s == "away"@ { "home"@ } else { s }
}

proof fn lemma_side_names()
    ensures
        "home"@ != "away"@,
        "home"@ != "draw"@,
        "away"@ != "draw"@,
{
    reveal_strlit("home");
    reveal_strlit("away");
    reveal_strlit("draw");
    assert("home"@[0] != "away"@[0]);
    assert("home"@[0] != "draw"@[0]);
    assert("away"@[0] != "draw"@[0]);
}

/// Swapping sides is its own inverse, keeps draws, and keeps two names
/// equal exactly when they were.
pub proof fn lemma_swap_sides(a: Seq<char>, b: Seq<char>)
    ensures
        swap_sides(swap_sides(a)) == a,
        (swap_sides(a) == "draw"@) == (a == "draw"@),
        (swap_sides(a) == swap_sides(b)) == (a == b),
{
    lemma_side_names();
}

/// Scoring favours neither side of a match: swapping home and away in both
/// the call and the result never changes the points. A right call earns 3;
/// a wrong call earns -1 when exactly one of the call and the result is a
/// draw, and -3 when neither is (calling `away` on a `home` win, say).
pub proof fn law_points_ignore_sides(sel: Seq<char>, res: Seq<char>)
    ensures
        spec_points(swap_sides(sel), swap_sides(res)) == spec_points(sel, res),
        sel == res ==> spec_points(sel, res) == 3,
        sel != res && (sel == "draw"@) != (res == "draw"@) ==> spec_points(sel, res) == -1,
        sel != res && sel != "draw"@ && res != "draw"@ ==> spec_points(sel, res) == -3,
        spec_points("away"@, "home"@) == -3,
        spec_points("home"@, "away"@) == -3,
{
    lemma_side_names();
    lemma_swap_sides(sel, res);
}

/// A stored vote, as far as scoring and tallies need it.
#[derive(Debug, Clone)]
pub struct VoteRecord {
    pub user_id: String,
    pub selection: String,
    pub is_correct: Option<bool>,
    pub points_awarded: Option<i32>,
}

impl VoteRecord {
    /// A field-by-field copy.
    pub fn duplicate(&self) -> (r: VoteRecord)
        ensures
            r == *self,
    {
        VoteRecord {
            user_id: self.user_id.clone(),
            selection: self.selection.clone(),
            is_correct: self.is_correct,
            points_awarded: self.points_awarded,
        }
    }
}

/// The marks a vote receives when its fixture is settled: a vote not yet
/// marked is marked correct with 1 point when its selection equals the
/// result, incorrect with 0 points otherwise; a marked vote keeps its marks.
pub fn mark_vote(vote: &VoteRecord, result: &str) -> (r: (Option<bool>, Option<i32>))
    ensures
        vote.is_correct.is_some() ==> r == (vote.is_correct, vote.points_awarded),
        vote.is_correct.is_none() && vote.selection@ == result@ ==> r == (Some(true), Some(1i32)),
        vote.is_correct.is_none() && vote.selection@ != result@ ==> r == (Some(false), Some(0i32)),
{
    match vote.is_correct {
        Some(_) => (vote.is_correct, vote.points_awarded),
        None => {
            if str_eq(vote.selection.as_str(), result) {
                (Some(true), Some(1))
            } else {
                (Some(false), Some(0))
            }
        },
    }
}

/// The marks and points of a vote when a fixture is finalized: correct
/// when the selection equals the result, with `calculate_points` points.
pub fn finalize_vote(selection: &str, result: &str) -> (r: (bool, i32))
    ensures
        r.0 == (selection@ == result@),
        r.1 == spec_points(selection@, result@),
{
    (str_eq(selection, result), calculate_points(selection, result))
}

/// Whether a stored vote belongs to one of the given members.
pub open spec fn by_member(members: Seq<Seq<char>>) -> spec_fn(VoteRecord) -> bool {
    |v: VoteRecord| members.contains(v.user_id@)
}

/// The votes of the given members, in their original order.
pub fn member_votes(votes: &Vec<VoteRecord>, members: &Vec<String>) -> (r: Vec<VoteRecord>)
    ensures
        r@ == votes@.filter(by_member(members@.map_values(|s: String| s@))),
{
    let ghost ms = members@.map_values(|s: String| s@);
    let ghost pred = by_member(ms);
    let mut out: Vec<VoteRecord> = Vec::new();
    let mut i: usize = 0;
    while i < votes.len()
        invariant
            i <= votes.len(),
            ms == members@.map_values(|s: String| s@),
            pred == by_member(ms),
            out@ == votes@.subrange(0, i as int).filter(pred),
        decreases votes.len() - i,
    {
        let v = &votes[i];
        let is_member = contains_str(members, v.user_id.as_str());
        proof {
            reveal_with_fuel(Seq::<_>::filter, 1);
            assert(votes@.subrange(0, i + 1).drop_last() =~= votes@.subrange(0, i as int));
            if is_member {
                let j = choose|j: int| 0 <= j < members@.len() && (#[trigger] members@[j])@ == v.user_id@;
                assert(ms[j] == v.user_id@);
                assert(ms.contains(v.user_id@));
            } else {
                if ms.contains(v.user_id@) {
                    let j = choose|j: int| 0 <= j < ms.len() && ms[j] == v.user_id@;
                    assert(members@[j]@ == v.user_id@);
                }
            }
        }
        if is_member {
            out.push(v.duplicate());
        }
        i = i + 1;
    }
    assert(votes@.subrange(0, votes@.len() as int) =~= votes@);
    out
}

/// What a vote request does: whether the vote is stored, and then either
/// the counter it moves or the error the request is answered with.
#[derive(Debug)]
pub struct VoteOutcome {
    pub stored_selection: Option<String>,
    pub result: Result<VoteField, AppError>,
}

/// A request to vote on a fixture.
#[derive(Debug, Clone)]
pub struct CastVoteRequest {
    pub fixture_id: String,
    pub user_id: String,
    pub username: String,
    pub selection: String,
    pub channel_id: Option<String>,
}

/// Decides a vote given whether the user already voted on the fixture. A
/// second vote is refused and nothing is stored; otherwise the vote is
/// stored as given, and a selection other than `home`, `away` or `draw` is
/// refused only after that.
pub fn decide_vote(req: &CastVoteRequest, already_voted: bool) -> (r: VoteOutcome)
    ensures
        already_voted ==> r.stored_selection is None
            && (r.result matches Err(e) && is_validation_error(e, "Already voted on this fixture"@)),
        !already_voted ==> (r.stored_selection matches Some(s) && s@ == req.selection@),
        !already_voted ==> match spec_vote_field(req.selection@) {
            Some(f) => r.result == Ok::<VoteField, AppError>(f),
            None => r.result matches Err(e)
                && is_validation_error(e, "Invalid selection. Must be 'home', 'away', or 'draw'"@),
        },
{
    if already_voted {
        return VoteOutcome {
            stored_selection: None,
            result: Err(AppError::ValidationError(String::from_str("Already voted on this fixture"))),
        };
    }
    let result = match vote_field(req.selection.as_str()) {
        Some(f) => Ok(f),
        None => Err(AppError::ValidationError(
            String::from_str("Invalid selection. Must be 'home', 'away', or 'draw'"),
        )),
    };
    VoteOutcome { stored_selection: Some(req.selection.clone()), result }
}

/// Decides a vote cast from a channel, given whether the user already voted
/// on the fixture and whether the user exists. The checks run in order: no
/// earlier vote, a well-formed user id, a known user; the vote is then
/// stored under its stored spelling (`home_team`, `away_team`, `draw`, or
/// as given), and a selection other than `home`, `away` or `draw` is
/// refused only after that.
pub fn decide_channel_vote(req: &CastVoteRequest, already_voted: bool, user_found: bool) -> (r: VoteOutcome)
    ensures
        already_voted ==> r.stored_selection is None
            && (r.result matches Err(e) && is_validation_error(e, "Already voted on this fixture"@)),
        !already_voted && !is_object_id(req.user_id@) ==> r.stored_selection is None
            && (r.result matches Err(e) && is_invalid_object_id(e, object_id_error_text(req.user_id@))),
        !already_voted && is_object_id(req.user_id@) && !user_found ==> r.stored_selection is None
            && r.result == Err::<VoteField, AppError>(AppError::DocumentNotFound),
        !already_voted && is_object_id(req.user_id@) && user_found ==> {
            &&& (r.stored_selection matches Some(s) && s@ == spec_display_selection(req.selection@))
            &&& match spec_vote_field(req.selection@) {
                Some(f) => r.result == Ok::<VoteField, AppError>(f),
                None => r.result matches Err(e) && is_validation_error(e, "Invalid selection"@),
            }
        },
{
    if already_voted {
        return VoteOutcome {
            stored_selection: None,
            result: Err(AppError::ValidationError(String::from_str("Already voted on this fixture"))),
        };
    }
    match check_object_id(req.user_id.as_str()) {
        Err(e) => return VoteOutcome { stored_selection: None, result: Err(e) },
        Ok(()) => {},
    }
    if !user_found {
        return VoteOutcome { stored_selection: None, result: Err(AppError::DocumentNotFound) };
    }
    let result = match vote_field(req.selection.as_str()) {
        Some(f) => Ok(f),
        None => Err(AppError::ValidationError(String::from_str("Invalid selection"))),
    };
    VoteOutcome { stored_selection: Some(display_selection(req.selection.as_str())), result }
}

/// What rolling a vote back does: whether the stored vote is deleted, the
/// counter moved back (if any), and the answer.
#[derive(Debug)]
pub struct RollbackOutcome {
    pub deleted: bool,
    pub field: Option<VoteField>,
    pub result: Result<(), AppError>,
}

/// A request to take back a vote.
#[derive(Debug, Clone)]
pub struct RollbackVoteRequest {
    pub fixture_id: String,
    pub user_id: String,
}

/// Decides a rollback given the selection of the user's stored vote
/// (`None`: no vote). Without a vote the request is refused; otherwise the
/// vote is deleted, and a stored selection other than `home`, `away` or
/// `draw` is refused only after that.
pub fn decide_rollback(stored: &Option<String>) -> (r: RollbackOutcome)
    ensures
        stored is None ==> !r.deleted && r.field is None
            && (r.result matches Err(e) && is_validation_error(e, "User has not voted on this fixture"@)),
        stored matches Some(s) ==> r.deleted && r.field == spec_vote_field(s@)
            && (r.field is Some ==> r.result is Ok)
            && (r.field is None ==> (r.result matches Err(e) && is_validation_error(e, "Invalid selection in vote record"@))),
{
    match stored {
        None => RollbackOutcome {
            deleted: false,
            field: None,
            result: Err(AppError::ValidationError(String::from_str("User has not voted on this fixture"))),
        },
        Some(s) => {
            let field = vote_field(s.as_str());
            let result = if field.is_some() {
                Ok(())
            } else {
                Err(AppError::ValidationError(String::from_str("Invalid selection in vote record")))
            };
            RollbackOutcome { deleted: true, field, result }
        },
    }
}

/// Decides a rollback from a channel given the selection of the user's
/// stored vote (`None`: no vote). Without a vote the answer is "not found";
/// otherwise the vote is deleted, its counter (either spelling) is moved
/// back, and the user's vote total is lowered when the user id is
/// well-formed; an unknown stored selection or a malformed user id is
/// refused after the steps already taken.
pub fn decide_channel_rollback(user_id: &str, stored: &Option<String>) -> (r: RollbackOutcome)
    ensures
        stored is None ==> !r.deleted && r.field is None && r.result == Err::<(), AppError>(AppError::DocumentNotFound),
        stored matches Some(s) ==> r.deleted && r.field == spec_vote_field_lenient(s@),
        stored matches Some(s) && spec_vote_field_lenient(s@) is None
            ==> (r.result matches Err(e) && is_validation_error(e, "Invalid selection"@)),
        stored matches Some(s) && spec_vote_field_lenient(s@) is Some && !is_object_id(user_id@)
            ==> (r.result matches Err(e) && is_invalid_object_id(e, object_id_error_text(user_id@))),
        stored matches Some(s) && spec_vote_field_lenient(s@) is Some && is_object_id(user_id@) ==> r.result is Ok,
{
    match stored {
        None => RollbackOutcome { deleted: false, field: None, result: Err(AppError::DocumentNotFound) },
        Some(s) => {
            let field = vote_field_lenient(s.as_str());
            let result = if field.is_none() {
                Err(AppError::ValidationError(String::from_str("Invalid selection")))
            } else {
                check_object_id(user_id)
            };
            RollbackOutcome { deleted: true, field, result }
        },
    }
}

/// A member's standing in a channel's table.
#[derive(Debug, Clone, Copy, PartialEq, Eq, Structural)]
pub struct MemberStats {
    pub season_points: i32,
    pub correct_votes: i32,
    pub total_votes: i32,
}

impl MemberStats {
    /// Counts a settled vote: a correct one earns a point and a correct
    /// vote; every one adds to the votes.
    pub fn record_settled_vote(&mut self, correct: bool)
        requires
            old(self).season_points < i32::MAX,
            old(self).correct_votes < i32::MAX,
            old(self).total_votes < i32::MAX,
        ensures
            final(self).season_points == old(self).season_points + if correct { 1int } else { 0int },
            final(self).correct_votes == old(self).correct_votes + if correct { 1int } else { 0int },
            final(self).total_votes == old(self).total_votes + 1,
    {
        if correct {
            self.season_points = self.season_points + 1;
            self.correct_votes = self.correct_votes + 1;
        }
        self.total_votes = self.total_votes + 1;
    }

    /// Counts a finalized vote: its points go to the season, and a correct
    /// one counts as a correct vote.
    pub fn record_finalized_vote(&mut self, correct: bool, points: i32)
        requires
            i32::MIN <= old(self).season_points + points <= i32::MAX,
            old(self).correct_votes < i32::MAX,
        ensures
            final(self).season_points == old(self).season_points + points,
            final(self).correct_votes == old(self).correct_votes + if correct { 1int } else { 0int },
            final(self).total_votes == old(self).total_votes,
    {
        self.season_points = self.season_points + points;
        if correct {
            self.correct_votes = self.correct_votes + 1;
        }
    }
}

/// Where a finalized result was written: `both`, `fixtures`, `games` or
/// `none`.
pub fn finalize_source(fixtures_updated: bool, games_updated: bool) -> (r: &'static str)
    ensures
        r@ == if fixtures_updated && games_updated {
            "both"@
        } else if fixtures_updated {
            "fixtures"@
        } else if games_updated {
            "games"@
        } else {
            "none"@
        },
{
    proof {
        reveal_strlit("both");
        reveal_strlit("fixtures");
        reveal_strlit("games");
        reveal_strlit("none");
    }
    if fixtures_updated && games_updated {
        "both"
    } else if fixtures_updated {
        "fixtures"
    } else if games_updated {
        "games"
    } else {
        "none"
    }
}

/// Names a fixture's final result, with which its open votes are settled.
#[derive(Debug, Clone)]
pub struct FinalizeFixtureRequest {
    pub fixture_id: String,
    pub result: String,
}

} // verus!
