//! Pledges and the bets made from them. A pledge stakes an amount on one
//! side of a fixture; two opposite pledges are paired into a bet, and when
//! the fixture's winning side is known the bet names its winner. Amounts are
//! in cents.

use vstd::prelude::*;
use crate::errors::{AppError, is_validation_error, is_invalid_object_id, is_missing_field};
use crate::ids::{is_object_id, object_id_error_text, check_object_id};
use crate::money::{spec_amount_short, amount_short};
use crate::text::{str_eq, concat};
use crate::wagers::{spec_kes_shortfall, kes_shortfall_message};
use crate::bets::clone_opt;

verus! {

fn validation(msg: &str) -> (e: AppError)
    ensures
        is_validation_error(e, msg@),
{
    AppError::ValidationError(String::from_str(msg))
}

fn missing(field: &str) -> (e: AppError)
    ensures
        is_missing_field(e, field@),
{
    AppError::MissingRequiredField(String::from_str(field))
}

/// A request to pledge an amount on a fixture.
#[derive(Debug, Clone)]
pub struct CreatePledge {
    pub username: String,
    pub phone: String,
    pub selection: String,
    pub amount: i64,
    pub fan: String,
    pub home_team: String,
    pub away_team: String,
    pub starter_id: String,
    pub fixture_id: Option<String>,
}

/// The outcome of a pledge request, in the order the checks are made:
/// username, phone and selection present, a positive amount, a starter id
/// present, a known user, and a balance that covers the amount. On success
/// the result is the user's balance afterwards.
pub open spec fn spec_pledge(req: CreatePledge, balance: Option<i64>, r: Result<i128, AppError>) -> bool {
    if req.username@.len() == 0 {
        r matches Err(e) && is_missing_field(e, "username"@)
    } else if req.phone@.len() == 0 {
        r matches Err(e) && is_missing_field(e, "phone"@)
    } else if req.selection@.len() == 0 {
        r matches Err(e) && is_missing_field(e, "selection"@)
    } else if req.amount <= 0 {
        r matches Err(e) && is_validation_error(e, "amount must be greater than 0"@)
    } else if req.starter_id@.len() == 0 {
        r matches Err(e) && is_missing_field(e, "starter_id"@)
    } else {
        match balance {
            None => r == Err::<i128, AppError>(AppError::DocumentNotFound),
            Some(b) => if b < req.amount {
                r matches Err(e) && is_validation_error(e, spec_kes_shortfall(b as int, req.amount as int))
            } else {
                r == Ok::<i128, AppError>((b - req.amount) as i128)
            },
        }
    }
}

/// Decides a pledge request, given the starter's balance (`None`: no user
/// with that id).
pub fn decide_pledge(req: &CreatePledge, balance: Option<i64>) -> (r: Result<i128, AppError>)
    ensures
        spec_pledge(*req, balance, r),
{
    if req.username.unicode_len() == 0 {
        return Err(missing("username"));
    }
    if req.phone.unicode_len() == 0 {
        return Err(missing("phone"));
    }
    if req.selection.unicode_len() == 0 {
        return Err(missing("selection"));
    }
    if req.amount <= 0 {
        return Err(validation("amount must be greater than 0"));
    }
    if req.starter_id.unicode_len() == 0 {
        return Err(missing("starter_id"));
    }
    let b = match balance {
        None => return Err(AppError::DocumentNotFound),
        Some(b) => b,
    };
    if b < req.amount {
        return Err(AppError::ValidationError(kes_shortfall_message(b, req.amount)));
    }
    Ok(b as i128 - req.amount as i128)
}

/// The teams a pledge-statistics request names.
#[derive(Debug, Clone)]
pub struct PledgeStatsQuery {
    pub home_team: Option<String>,
    pub away_team: Option<String>,
}

/// A stored pledge, as far as the statistics read it.
#[derive(Debug, Clone)]
pub struct PledgeEntry {
    pub selection: String,
    pub amount: i64,
}

/// How many pledges in `p` are on `sel`.
pub open spec fn count_on(p: Seq<PledgeEntry>, sel: Seq<char>) -> nat
    decreases p.len(),
{
    if p.len() == 0 {
        0
    } else {
        count_on(p.drop_last(), sel) + if p.last().selection@ == sel { 1nat } else { 0nat }
    }
}

/// The amount pledged over `p`.
pub open spec fn sum_amounts(p: Seq<PledgeEntry>) -> int
    decreases p.len(),
{
    if p.len() == 0 {
        0
    } else {
        sum_amounts(p.drop_last()) + p.last().amount
    }
}

/// Totals of the pledges on one fixture.
#[derive(Debug, Clone, Copy, PartialEq, Eq, Structural)]
pub struct PledgeStats {
    pub total_pledges: u64,
    pub total_amount: i128,
    pub home_team: u64,
    pub away_team: u64,
    pub draw: u64,
}

/// The teams a statistics request must name, in order: the home team, then
/// the away team.
pub fn check_stats_query(q: &PledgeStatsQuery) -> (r: Result<(), AppError>)
    ensures
        q.home_team is None ==> (r matches Err(e) && is_missing_field(e, "home_team"@)),
        q.home_team is Some && q.away_team is None ==> (r matches Err(e) && is_missing_field(e, "away_team"@)),
        q.home_team is Some && q.away_team is Some ==> r is Ok,
{
    if q.home_team.is_none() {
        return Err(missing("home_team"));
    }
    if q.away_team.is_none() {
        return Err(missing("away_team"));
    }
    Ok(())
}

proof fn lemma_sum_bound(p: Seq<PledgeEntry>)
    ensures
        -(p.len() * 0x8000_0000_0000_0000) <= sum_amounts(p) <= p.len() * 0x8000_0000_0000_0000,
    decreases p.len(),
{
    if p.len() > 0 {
        lemma_sum_bound(p.drop_last());
        let n = p.len() as int;
        assert((n - 1) * 0x8000_0000_0000_0000 + 0x8000_0000_0000_0000 == n * 0x8000_0000_0000_0000)
            by (nonlinear_arith);
    }
}

/// Counts the pledges on each side and adds up their amounts.
pub fn pledge_stats(pledges: &Vec<PledgeEntry>) -> (s: PledgeStats)
    ensures
        s.total_pledges == pledges@.len(),
        s.total_amount == sum_amounts(pledges@),
        s.home_team == count_on(pledges@, "home_team"@),
        s.away_team == count_on(pledges@, "away_team"@),
        s.draw == count_on(pledges@, "draw"@),
{
    let mut total: i128 = 0;
    let mut home: u64 = 0;
    let mut away: u64 = 0;
    let mut draw: u64 = 0;
    let mut i: usize = 0;
    while i < pledges.len()
        invariant
            i <= pledges@.len(),
            total == sum_amounts(pledges@.subrange(0, i as int)),
            home == count_on(pledges@.subrange(0, i as int), "home_team"@),
            away == count_on(pledges@.subrange(0, i as int), "away_team"@),
            draw == count_on(pledges@.subrange(0, i as int), "draw"@),
            home <= i && away <= i && draw <= i,
        decreases pledges.len() - i,
    {
        let ghost pre = pledges@.subrange(0, i as int);
        let ghost post = pledges@.subrange(0, i + 1);
        proof {
            assert(post.drop_last() =~= pre);
            lemma_sum_bound(post);
            let n = post.len() as int;
            assert(n <= 0xffff_ffff_ffff_ffff);
            assert(n * 0x8000_0000_0000_0000 <= 0xffff_ffff_ffff_ffff * 0x8000_0000_0000_0000)
                by (nonlinear_arith)
                requires n <= 0xffff_ffff_ffff_ffff;
        }
        let p = &pledges[i];
        total = total + p.amount as i128;
        if str_eq(p.selection.as_str(), "home_team") {
            home = home + 1;
        }
        if str_eq(p.selection.as_str(), "away_team") {
            away = away + 1;
        }
        if str_eq(p.selection.as_str(), "draw") {
            draw = draw + 1;
        }
        i = i + 1;
    }
    proof {
        assert(pledges@.subrange(0, pledges@.len() as int) =~= pledges@);
    }
    PledgeStats { total_pledges: pledges.len() as u64, total_amount: total, home_team: home, away_team: away, draw }
}

/// The states a pledge can be moved to.
pub open spec fn is_pledge_status(s: Seq<char>) -> bool {
    s == "matched"@ || s == "completed"@ || s == "cancelled"@
}

/// The outcome of moving a pledge to `status`, in the order the checks are
/// made: a known status, a well-formed pledge id, and a pledge that exists.
/// On success the result is the confirmation message.
pub fn decide_pledge_status(pledge_id: &str, status: &str, found: bool) -> (r: Result<String, AppError>)
    ensures
        !is_pledge_status(status@) ==> (r matches Err(e) && is_validation_error(e, "Invalid pledge status"@)),
        is_pledge_status(status@) && !is_object_id(pledge_id@)
            ==> (r matches Err(e) && is_invalid_object_id(e, object_id_error_text(pledge_id@))),
        is_pledge_status(status@) && is_object_id(pledge_id@) && !found
            ==> r == Err::<String, AppError>(AppError::DocumentNotFound),
        is_pledge_status(status@) && is_object_id(pledge_id@) && found
            ==> (r matches Ok(m) && m@ == "Pledge status updated to '"@ + status@ + "'"@),
{
    if !(str_eq(status, "matched") || str_eq(status, "completed") || str_eq(status, "cancelled")) {
        return Err(validation("Invalid pledge status"));
    }
    match check_object_id(pledge_id) {
        Err(e) => return Err(e),
        Ok(()) => {},
    }
    if !found {
        return Err(AppError::DocumentNotFound);
    }
    let mut m = concat("Pledge status updated to '", status);
    m.append("'");
    Ok(m)
}

/// The outcome of setting a user's balance: refused when negative,
/// otherwise the confirmation message `Balance updated to ₿250.5`.
pub fn decide_balance_update(balance: i64) -> (r: Result<String, AppError>)
    ensures
        balance < 0 ==> (r matches Err(e) && is_validation_error(e, "Balance cannot be negative"@)),
        balance >= 0 ==> (r matches Ok(m) && m@ == "Balance updated to ₿"@ + spec_amount_short(balance as int)),
{
    if balance < 0 {
        return Err(validation("Balance cannot be negative"));
    }
    let a = amount_short(balance);
    Ok(concat("Balance updated to ₿", a.as_str()))
}

/// The outcome of deleting a bet: a well-formed id naming a bet that was
/// deleted.
pub fn decide_bet_deletion(id: &str, deleted: bool) -> (r: Result<String, AppError>)
    ensures
        !is_object_id(id@) ==> (r matches Err(e) && is_invalid_object_id(e, object_id_error_text(id@))),
        is_object_id(id@) && !deleted ==> r == Err::<String, AppError>(AppError::DocumentNotFound),
        is_object_id(id@) && deleted ==> (r matches Ok(m) && m@ == "Bet deleted successfully"@),
{
    match check_object_id(id) {
        Err(e) => return Err(e),
        Ok(()) => {},
    }
    if !deleted {
        return Err(AppError::DocumentNotFound);
    }
    Ok(String::from_str("Bet deleted successfully"))
}

/// A request to pair a pledge with an opposite one into a bet.
#[derive(Debug, Clone)]
pub struct PledgeBetRequest {
    pub pledge_id: String,
    pub match_id: String,
    pub starter_id: String,
    pub starter_username: String,
    pub starter_selection: String,
    pub starter_amount: i64,
    pub finisher_id: String,
    pub finisher_username: String,
    pub finisher_selection: String,
    pub finisher_amount: Option<i64>,
    pub total_pot: i64,
}

/// A side a pledge can take: `home_team`, `away_team` or `draw`.
pub open spec fn is_side(s: Seq<char>) -> bool {
    s == "home_team"@ || s == "away_team"@ || s == "draw"@
}

fn side(s: &str) -> (r: bool)
    ensures
        r == is_side(s@),
{
    str_eq(s, "home_team") || str_eq(s, "away_team") || str_eq(s, "draw")
}

/// The finisher's stake: as given, or else what the pot leaves after the
/// starter's stake.
pub open spec fn finisher_amount_of(req: PledgeBetRequest) -> int {
    match req.finisher_amount {
        Some(a) => a as int,
        None => req.total_pot - req.starter_amount,
    }
}

/// The outcome of pairing two pledges, in the order the checks are made:
/// both user ids present, a positive starter stake, both selections among
/// the three sides, opposite selections, a positive finisher stake, an
/// existing fixture, and the starter's pledge on it. On success the result
/// is the finisher's stake.
pub open spec fn spec_pledge_bet(
    req: PledgeBetRequest,
    fixture_found: bool,
    pledger_found: bool,
    r: Result<i128, AppError>,
) -> bool {
    if req.starter_id@.len() == 0 {
        r matches Err(e) && is_missing_field(e, "starter_id"@)
    } else if req.finisher_id@.len() == 0 {
        r matches Err(e) && is_missing_field(e, "finisher_id"@)
    } else if req.starter_amount <= 0 {
        r matches Err(e) && is_validation_error(e, "starter_amount must be greater than 0"@)
    } else if !is_side(req.starter_selection@) || !is_side(req.finisher_selection@) {
        r matches Err(e) && is_validation_error(e, "Invalid selection. Must be home_team, away_team or draw"@)
    } else if req.starter_selection@ == req.finisher_selection@ {
        r matches Err(e) && is_validation_error(e, "Starter and finisher must have opposite selections"@)
    } else if finisher_amount_of(req) <= 0 {
        r matches Err(e) && is_validation_error(e, "Finisher amount must be greater than 0"@)
    } else if !fixture_found {
        r == Err::<i128, AppError>(AppError::DocumentNotFound)
    } else if !pledger_found {
        r matches Err(e) && is_validation_error(e, "Pledger not found for this fixture"@)
    } else {
        r == Ok::<i128, AppError>(finisher_amount_of(req) as i128)
    }
}

/// Decides a request to pair two pledges, given whether the fixture exists
/// and whether the starter's pledge was found on it.
pub fn decide_pledge_bet(
    req: &PledgeBetRequest,
    fixture_found: bool,
    pledger_found: bool,
) -> (r: Result<i128, AppError>)
    ensures
        spec_pledge_bet(*req, fixture_found, pledger_found, r),
{
    if req.starter_id.unicode_len() == 0 {
        return Err(missing("starter_id"));
    }
    if req.finisher_id.unicode_len() == 0 {
        return Err(missing("finisher_id"));
    }
    if req.starter_amount <= 0 {
        return Err(validation("starter_amount must be greater than 0"));
    }
    if !side(req.starter_selection.as_str()) || !side(req.finisher_selection.as_str()) {
        return Err(validation("Invalid selection. Must be home_team, away_team or draw"));
    }
    if str_eq(req.starter_selection.as_str(), req.finisher_selection.as_str()) {
        return Err(validation("Starter and finisher must have opposite selections"));
    }
    let fin: i128 = match req.finisher_amount {
        Some(a) => a as i128,
        None => req.total_pot as i128 - req.starter_amount as i128,
    };
    if fin <= 0 {
        return Err(validation("Finisher amount must be greater than 0"));
    }
    if !fixture_found {
        return Err(AppError::DocumentNotFound);
    }
    if !pledger_found {
        return Err(validation("Pledger not found for this fixture"));
    }
    Ok(fin)
}

/// One side of a bet as the fixture lists it.
#[derive(Debug, Clone)]
pub struct Bettor {
    pub user_id: String,
    pub user_name: String,
    pub selection: String,
    pub amount: i128,
    pub opponent_id: String,
    pub opponent_name: String,
    pub opponent_selection: String,
    pub opponent_amount: i128,
    pub total_pot: i64,
    pub bet_id: String,
}

/// The two entries a new bet adds to its fixture, starter first. Each is
/// the other seen from the opposite side.
pub fn bettor_pair(req: &PledgeBetRequest, finisher_amount: i128, bet_id: &str) -> (r: (Bettor, Bettor))
    ensures
        r.0.user_id@ == req.starter_id@,
        r.0.user_name@ == req.starter_username@,
        r.0.selection@ == req.starter_selection@,
        r.0.amount == req.starter_amount,
        r.1.user_id@ == req.finisher_id@,
        r.1.user_name@ == req.finisher_username@,
        r.1.selection@ == req.finisher_selection@,
        r.1.amount == finisher_amount,
        r.0.opponent_id@ == r.1.user_id@,
        r.0.opponent_name@ == r.1.user_name@,
        r.0.opponent_selection@ == r.1.selection@,
        r.0.opponent_amount == r.1.amount,
        r.1.opponent_id@ == r.0.user_id@,
        r.1.opponent_name@ == r.0.user_name@,
        r.1.opponent_selection@ == r.0.selection@,
        r.1.opponent_amount == r.0.amount,
        r.0.total_pot == req.total_pot && r.1.total_pot == req.total_pot,
        r.0.bet_id@ == bet_id@ && r.1.bet_id@ == bet_id@,
{
    let starter = Bettor {
        user_id: req.starter_id.clone(),
        user_name: req.starter_username.clone(),
        selection: req.starter_selection.clone(),
        amount: req.starter_amount as i128,
        opponent_id: req.finisher_id.clone(),
        opponent_name: req.finisher_username.clone(),
        opponent_selection: req.finisher_selection.clone(),
        opponent_amount: finisher_amount,
        total_pot: req.total_pot,
        bet_id: String::from_str(bet_id),
    };
    let finisher = Bettor {
        user_id: req.finisher_id.clone(),
        user_name: req.finisher_username.clone(),
        selection: req.finisher_selection.clone(),
        amount: finisher_amount,
        opponent_id: req.starter_id.clone(),
        opponent_name: req.starter_username.clone(),
        opponent_selection: req.starter_selection.clone(),
        opponent_amount: req.starter_amount as i128,
        total_pot: req.total_pot,
        bet_id: String::from_str(bet_id),
    };
    (starter, finisher)
}

/// A paired bet as the store holds it.
#[derive(Debug, Clone)]
pub struct PledgeBet {
    pub starter_id: String,
    pub starter_username: String,
    pub starter_selection: String,
    pub finisher_id: String,
    pub finisher_username: String,
    pub finisher_selection: String,
    pub total_pot: i64,
}

/// What a bet's result does: its winner (by id and name), what each side
/// is paid, and the side that lost, when there is a winner.
#[derive(Debug, Clone)]
pub struct BetResolution {
    pub winner_id: Option<String>,
    pub winner_username: Option<String>,
    pub starter_won: bool,
    pub finisher_won: bool,
    pub starter_payout: i64,
    pub finisher_payout: i64,
    pub loser_id: Option<String>,
}

/// The winning selections a result can name.
pub open spec fn is_winning_selection(s: Seq<char>) -> bool {
    s == "home_win"@ || s == "away_win"@ || s == "draw"@
}

/// The winner of a bet whose winning selection is `w`: the starter when the
/// starter's selection is `w`, else the finisher when theirs is, else none.
pub open spec fn winner_of(b: PledgeBet, w: Seq<char>) -> Option<Seq<char>> {
    if b.starter_selection@ == w {
        Some(b.starter_id@)
    } else if b.finisher_selection@ == w {
        Some(b.finisher_id@)
    } else {
        None
    }
}

/// How a bet is resolved by winning selection `w`. A side has won when its
/// id is the winner's id; a side that won is paid the pot. The winner's
/// name is looked up by id, the starter's first; the loser is the finisher
/// when the starter is the winner, otherwise the starter.
pub open spec fn spec_resolution(b: PledgeBet, w: Seq<char>, res: BetResolution) -> bool {
    let win = winner_of(b, w);
    &&& match res.winner_id {
        Some(x) => win == Some(x@),
        None => win is None,
    }
    &&& res.starter_won == (win == Some(b.starter_id@))
    &&& res.finisher_won == (win == Some(b.finisher_id@))
    &&& res.starter_payout == (if res.starter_won { b.total_pot } else { 0 })
    &&& res.finisher_payout == (if res.finisher_won { b.total_pot } else { 0 })
    &&& match win {
        None => res.winner_username is None && res.loser_id is None,
        Some(x) => {
            &&& (if x == b.starter_id@ {
                res.winner_username matches Some(n) && n@ == b.starter_username@
            } else {
                res.winner_username matches Some(n) && n@ == b.finisher_username@
            })
            &&& (if x == b.starter_id@ {
                res.loser_id matches Some(l) && l@ == b.finisher_id@
            } else {
                res.loser_id matches Some(l) && l@ == b.starter_id@
            })
        },
    }
}

/// A bet is won by the side whose selection is the winning one, the
/// starter first, whatever that selection is (a `draw` pick wins on a
/// draw): the winner is named by id and name, is paid the whole pot, and
/// the other side is the loser. When neither side picked it there is no
/// winner and nobody is paid.
pub proof fn law_matching_selection_wins(b: PledgeBet, w: Seq<char>, res: BetResolution)
    requires
        spec_resolution(b, w, res),
    ensures
        b.starter_selection@ == w ==> {
            &&& res.winner_id matches Some(x) && x@ == b.starter_id@
            &&& res.winner_username matches Some(n) && n@ == b.starter_username@
            &&& res.starter_won
            &&& res.starter_payout == b.total_pot
            &&& res.loser_id matches Some(l) && l@ == b.finisher_id@
            &&& b.finisher_id@ != b.starter_id@ ==> !res.finisher_won && res.finisher_payout == 0
        },
        b.starter_selection@ != w && b.finisher_selection@ == w ==> {
            &&& res.winner_id matches Some(x) && x@ == b.finisher_id@
            &&& res.finisher_won
            &&& res.finisher_payout == b.total_pot
            &&& res.loser_id matches Some(l) && l@ == b.starter_id@
            &&& b.finisher_id@ != b.starter_id@ ==> {
                &&& res.winner_username matches Some(n) && n@ == b.finisher_username@
                &&& !res.starter_won && res.starter_payout == 0
            }
        },
        b.starter_selection@ != w && b.finisher_selection@ != w ==> {
            &&& res.winner_id is None
            &&& !res.starter_won && !res.finisher_won
            &&& res.starter_payout == 0 && res.finisher_payout == 0
        },
{
}

/// Decides a bet's result, in the order the checks are made: a known
/// winning selection, a well-formed bet id, and a bet that exists.
pub fn decide_bet_result(
    id: &str,
    winning_selection: &str,
    bet: &Option<PledgeBet>,
) -> (r: Result<BetResolution, AppError>)
    ensures
        !is_winning_selection(winning_selection@)
            ==> (r matches Err(e) && is_validation_error(e, "Invalid winning selection"@)),
        is_winning_selection(winning_selection@) && !is_object_id(id@)
            ==> (r matches Err(e) && is_invalid_object_id(e, object_id_error_text(id@))),
        is_winning_selection(winning_selection@) && is_object_id(id@) && bet is None
            ==> r == Err::<BetResolution, AppError>(AppError::DocumentNotFound),
        is_winning_selection(winning_selection@) && is_object_id(id@) && bet is Some
            ==> (r matches Ok(res) && spec_resolution(bet->0, winning_selection@, res)),
{
    if !(str_eq(winning_selection, "home_win") || str_eq(winning_selection, "away_win")
        || str_eq(winning_selection, "draw")) {
        return Err(validation("Invalid winning selection"));
    }
    match check_object_id(id) {
        Err(e) => return Err(e),
        Ok(()) => {},
    }
    let b = match bet {
        None => return Err(AppError::DocumentNotFound),
        Some(b) => b,
    };
    let winner: Option<String> = if str_eq(b.starter_selection.as_str(), winning_selection) {
        Some(b.starter_id.clone())
    } else if str_eq(b.finisher_selection.as_str(), winning_selection) {
        Some(b.finisher_id.clone())
    } else {
        None
    };
    let (starter_won, finisher_won, winner_username, loser_id) = match &winner {
        None => (false, false, None, None),
        Some(w) => {
            let sw = str_eq(w.as_str(), b.starter_id.as_str());
            let fw = str_eq(w.as_str(), b.finisher_id.as_str());
            let name = if sw { b.starter_username.clone() } else { b.finisher_username.clone() };
            let loser = if sw { b.finisher_id.clone() } else { b.starter_id.clone() };
            (sw, fw, Some(name), Some(loser))
        },
    };
    Ok(BetResolution {
        winner_id: clone_opt(&winner),
        winner_username,
        starter_won,
        finisher_won,
        starter_payout: if starter_won { b.total_pot } else { 0 },
        finisher_payout: if finisher_won { b.total_pot } else { 0 },
        loser_id,
    })
}

/// A pledge never overdraws: from a balance that is not negative, the
/// balance left after a pledge is not negative either.
pub proof fn law_pledge_never_overdraws(req: CreatePledge, balance: Option<i64>, r: Result<i128, AppError>)
    requires
        balance matches Some(b) ==> b >= 0,
        spec_pledge(req, balance, r),
    ensures
        r matches Ok(nb) ==> nb >= 0,
{
}

} // verus!
