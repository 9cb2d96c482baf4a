//! Placing and taking bets. A starter opens a bet by staking an amount on a
//! selection; a finisher fills it by staking on the other side. Each request
//! is checked in a fixed order against what the store holds (the user's
//! balance, an earlier vote, the open bet), and either refused with the
//! service's error or turned into a plan: which vote to cast on the user's
//! behalf and what the balance becomes. Amounts are in cents.
//!
//! The deciding functions take every lookup result as an argument. When an
//! early check refuses a request, the later arguments do not matter, so a
//! caller that stopped early may pass anything for them.

use vstd::prelude::*;
use crate::errors::{AppError, is_validation_error, is_invalid_object_id, is_missing_field};
use crate::ids::{is_object_id, object_id_error_text, check_object_id};
use crate::money::{spec_amount_short, spec_amount_2dp, amount_short, amount_2dp};
use crate::text::concat4;
use crate::votes::{VoteField, spec_vote_field, vote_field, spec_display_selection, display_selection};

verus! {

/// The refusal for a stake above the balance, amounts in their shortest form.
pub open spec fn spec_shortfall(balance: int, amount: int) -> Seq<char> {
    "Insufficient balance. You have "@ + spec_amount_short(balance) + ", need "@
        + spec_amount_short(amount)
}

/// The refusal for a stake above the balance, amounts in shillings with two
/// decimals.
pub open spec fn spec_kes_shortfall(balance: int, amount: int) -> Seq<char> {
    "Insufficient balance. You have KES "@ + spec_amount_2dp(balance) + ", need KES "@
        + spec_amount_2dp(amount)
}

/// `Insufficient balance. You have 50, need 120.5`.
pub fn shortfall_message(balance: i64, amount: i64) -> (s: String)
    ensures
        s@ == spec_shortfall(balance as int, amount as int),
{
    let b = amount_short(balance);
    let a = amount_short(amount);
    concat4("Insufficient balance. You have ", b.as_str(), ", need ", a.as_str())
}

/// `Insufficient balance. You have KES 50.00, need KES 120.50`.
pub fn kes_shortfall_message(balance: i64, amount: i64) -> (s: String)
    ensures
        s@ == spec_kes_shortfall(balance as int, amount as int),
{
    let b = amount_2dp(balance);
    let a = amount_2dp(amount);
    concat4("Insufficient balance. You have KES ", b.as_str(), ", need KES ", a.as_str())
}

fn validation(msg: &str) -> (e: AppError)
    ensures
        is_validation_error(e, msg@),
{
    AppError::ValidationError(String::from_str(msg))
}

/// A request to open a bet on a fixture.
#[derive(Debug, Clone)]
pub struct CreateBetRequest {
    pub starter_id: String,
    pub starter_name: String,
    pub starter_selection: String,
    pub amount: i64,
    pub fixture_id: String,
    pub vote_id: String,
    pub channel_id: Option<String>,
}

/// A request to take the other side of an open bet.
#[derive(Debug, Clone)]
pub struct FillBetRequest {
    pub bet_id: String,
    pub finisher_id: String,
    pub finisher_name: String,
    pub finisher_selection: String,
    pub amount: i64,
    pub channel_id: Option<String>,
}

/// An open bet as the store holds it.
#[derive(Debug, Clone)]
pub struct OpenBet {
    pub fixture_id: String,
    pub starter_id: String,
    pub starter_name: String,
    pub starter_amount: i64,
}

/// What accepting a bet does: the vote cast on the user's behalf (its
/// counter), if any, and the user's balance afterwards.
#[derive(Debug, Clone, Copy, PartialEq, Eq, Structural)]
pub struct BetPlacement {
    pub auto_vote: Option<VoteField>,
    pub new_balance: i128,
}

/// What filling a bet does: the finisher's vote cast on their behalf, if
/// any, the finisher's balance afterwards and the bet's pot.
#[derive(Debug, Clone, Copy, PartialEq, Eq, Structural)]
pub struct BetFill {
    pub auto_vote: Option<VoteField>,
    pub new_balance: i128,
    pub total_pot: i128,
}

/// The outcome of opening a bet, in the order the checks are made: a
/// positive amount, a well-formed starter id, a known user, a balance that
/// covers the amount, and, when the user has not voted on the fixture yet,
/// a selection that names a counter (a vote is then cast for them).
pub open spec fn spec_bet_placement(
    req: CreateBetRequest,
    already_voted: bool,
    balance: Option<i64>,
    r: Result<BetPlacement, AppError>,
) -> bool {
    if req.amount <= 0 {
        r matches Err(e) && is_validation_error(e, "Amount must be greater than 0"@)
    } else if !is_object_id(req.starter_id@) {
        r matches Err(e) && is_invalid_object_id(e, object_id_error_text(req.starter_id@))
    } else {
        match balance {
            None => r == Err::<BetPlacement, AppError>(AppError::DocumentNotFound),
            Some(b) => if b < req.amount {
                r matches Err(e) && is_validation_error(e, spec_shortfall(b as int, req.amount as int))
            } else if !already_voted && spec_vote_field(req.starter_selection@) is None {
                r matches Err(e) && is_validation_error(e, "Invalid selection"@)
            } else {
                r == Ok::<BetPlacement, AppError>(BetPlacement {
                    auto_vote: if already_voted { None } else { spec_vote_field(req.starter_selection@) },
                    new_balance: (b - req.amount) as i128,
                })
            },
        }
    }
}

/// Decides a request to open a bet, given whether the starter already voted
/// on the fixture and the starter's balance (`None`: no such user).
pub fn decide_bet_placement(
    req: &CreateBetRequest,
    already_voted: bool,
    balance: Option<i64>,
) -> (r: Result<BetPlacement, AppError>)
    ensures
        spec_bet_placement(*req, already_voted, balance, r),
{
    if req.amount <= 0 {
        return Err(validation("Amount must be greater than 0"));
    }
    match check_object_id(req.starter_id.as_str()) {
        Err(e) => return Err(e),
        Ok(()) => {},
    }
    let b = match balance {
        None => return Err(AppError::DocumentNotFound),
        Some(b) => b,
    };
    if b < req.amount {
        return Err(AppError::ValidationError(shortfall_message(b, req.amount)));
    }
    let auto_vote = if already_voted {
        None
    } else {
        match vote_field(req.starter_selection.as_str()) {
            None => return Err(validation("Invalid selection")),
            Some(f) => Some(f),
        }
    };
    Ok(BetPlacement { auto_vote, new_balance: b as i128 - req.amount as i128 })
}

/// The outcome of filling a bet, in the order the checks are made: a
/// positive amount, well-formed finisher and bet ids, a bet that is still
/// open, a finisher other than the starter, a known finisher whose balance
/// covers the amount, and, when the finisher has not voted yet, a selection
/// that names a counter.
pub open spec fn spec_bet_fill(
    req: FillBetRequest,
    bet: Option<OpenBet>,
    balance: Option<i64>,
    already_voted: bool,
    r: Result<BetFill, AppError>,
) -> bool {
    if req.amount <= 0 {
        r matches Err(e) && is_validation_error(e, "Amount must be greater than 0"@)
    } else if !is_object_id(req.finisher_id@) {
        r matches Err(e) && is_invalid_object_id(e, object_id_error_text(req.finisher_id@))
    } else if !is_object_id(req.bet_id@) {
        r matches Err(e) && is_invalid_object_id(e, object_id_error_text(req.bet_id@))
    } else {
        match bet {
            None => r matches Err(e) && is_validation_error(e, "Bet not found or already filled"@),
            Some(ob) => if ob.starter_id@ == req.finisher_id@ {
                r matches Err(e) && is_validation_error(e, "Cannot fill your own bet"@)
            } else {
                match balance {
                    None => r == Err::<BetFill, AppError>(AppError::DocumentNotFound),
                    Some(b) => if b < req.amount {
                        r matches Err(e) && is_validation_error(e, spec_shortfall(b as int, req.amount as int))
                    } else if !already_voted && spec_vote_field(req.finisher_selection@) is None {
                        r matches Err(e) && is_validation_error(e, "Invalid selection"@)
                    } else {
                        r == Ok::<BetFill, AppError>(BetFill {
                            auto_vote: if already_voted { None } else { spec_vote_field(req.finisher_selection@) },
                            new_balance: (b - req.amount) as i128,
                            total_pot: (ob.starter_amount + req.amount) as i128,
                        })
                    },
                }
            },
        }
    }
}

/// Decides a request to fill a bet, given the open bet it names (`None`:
/// no open bet with that id), the finisher's balance (`None`: no such
/// user) and whether the finisher already voted on the bet's fixture.
pub fn decide_bet_fill(
    req: &FillBetRequest,
    bet: &Option<OpenBet>,
    balance: Option<i64>,
    already_voted: bool,
) -> (r: Result<BetFill, AppError>)
    ensures
        spec_bet_fill(*req, *bet, balance, already_voted, r),
{
    if req.amount <= 0 {
        return Err(validation("Amount must be greater than 0"));
    }
    match check_object_id(req.finisher_id.as_str()) {
        Err(e) => return Err(e),
        Ok(()) => {},
    }
    match check_object_id(req.bet_id.as_str()) {
        Err(e) => return Err(e),
        Ok(()) => {},
    }
    let ob = match bet {
        None => return Err(validation("Bet not found or already filled")),
        Some(ob) => ob,
    };
    if crate::text::str_eq(ob.starter_id.as_str(), req.finisher_id.as_str()) {
        return Err(validation("Cannot fill your own bet"));
    }
    let b = match balance {
        None => return Err(AppError::DocumentNotFound),
        Some(b) => b,
    };
    if b < req.amount {
        return Err(AppError::ValidationError(shortfall_message(b, req.amount)));
    }
    let auto_vote = if already_voted {
        None
    } else {
        match vote_field(req.finisher_selection.as_str()) {
            None => return Err(validation("Invalid selection")),
            Some(f) => Some(f),
        }
    };
    Ok(BetFill {
        auto_vote,
        new_balance: b as i128 - req.amount as i128,
        total_pot: ob.starter_amount as i128 + req.amount as i128,
    })
}

/// The outcome of opening a bet from a channel, in the order the checks are
/// made: a well-formed starter id, a known user whose balance covers the
/// amount, and a vote by the starter on the fixture (whose id the bet keeps).
pub open spec fn spec_channel_bet_placement(
    req: CreateBetRequest,
    balance: Option<i64>,
    has_vote: bool,
    r: Result<i128, AppError>,
) -> bool {
    if !is_object_id(req.starter_id@) {
        r matches Err(e) && is_invalid_object_id(e, object_id_error_text(req.starter_id@))
    } else {
        match balance {
            None => r == Err::<i128, AppError>(AppError::DocumentNotFound),
            Some(b) => if b < req.amount {
                r matches Err(e) && is_validation_error(e, spec_kes_shortfall(b as int, req.amount as int))
            } else if !has_vote {
                r matches Err(e) && is_validation_error(e, "Vote not found for this fixture"@)
            } else {
                r == Ok::<i128, AppError>((b - req.amount) as i128)
            },
        }
    }
}

/// Decides a request to open a bet from a channel, given the starter's
/// balance (`None`: no such user) and whether the starter voted on the
/// fixture. On success the result is the starter's new balance.
pub fn decide_channel_bet_placement(
    req: &CreateBetRequest,
    balance: Option<i64>,
    has_vote: bool,
) -> (r: Result<i128, AppError>)
    ensures
        spec_channel_bet_placement(*req, balance, has_vote, r),
{
    match check_object_id(req.starter_id.as_str()) {
        Err(e) => return Err(e),
        Ok(()) => {},
    }
    let b = match balance {
        None => return Err(AppError::DocumentNotFound),
        Some(b) => b,
    };
    if b < req.amount {
        return Err(AppError::ValidationError(kes_shortfall_message(b, req.amount)));
    }
    if !has_vote {
        return Err(validation("Vote not found for this fixture"));
    }
    Ok(b as i128 - req.amount as i128)
}

/// The outcome of filling a bet from a channel, in the order the checks are
/// made: a well-formed bet id naming a bet that is still open, a
/// well-formed finisher id naming a known user whose balance covers the
/// amount, and a vote by the finisher on the bet's fixture.
pub open spec fn spec_channel_bet_fill(
    req: FillBetRequest,
    bet: Option<OpenBet>,
    balance: Option<i64>,
    has_vote: bool,
    r: Result<BetFill, AppError>,
) -> bool {
    if !is_object_id(req.bet_id@) {
        r matches Err(e) && is_invalid_object_id(e, object_id_error_text(req.bet_id@))
    } else {
        match bet {
            None => r == Err::<BetFill, AppError>(AppError::DocumentNotFound),
            Some(ob) => if !is_object_id(req.finisher_id@) {
                r matches Err(e) && is_invalid_object_id(e, object_id_error_text(req.finisher_id@))
            } else {
                match balance {
                    None => r == Err::<BetFill, AppError>(AppError::DocumentNotFound),
                    Some(b) => if b < req.amount {
                        r matches Err(e) && is_validation_error(e, spec_kes_shortfall(b as int, req.amount as int))
                    } else if !has_vote {
                        r matches Err(e) && is_validation_error(e, "Finisher must vote on this fixture first"@)
                    } else {
                        r == Ok::<BetFill, AppError>(BetFill {
                            auto_vote: None,
                            new_balance: (b - req.amount) as i128,
                            total_pot: (ob.starter_amount + req.amount) as i128,
                        })
                    },
                }
            },
        }
    }
}

/// Decides a request to fill a bet from a channel, given the open bet it
/// names (`None`: no open bet with that id), the finisher's balance
/// (`None`: no such user) and whether the finisher voted on the fixture.
pub fn decide_channel_bet_fill(
    req: &FillBetRequest,
    bet: &Option<OpenBet>,
    balance: Option<i64>,
    has_vote: bool,
) -> (r: Result<BetFill, AppError>)
    ensures
        spec_channel_bet_fill(*req, *bet, balance, has_vote, r),
{
    match check_object_id(req.bet_id.as_str()) {
        Err(e) => return Err(e),
        Ok(()) => {},
    }
    let ob = match bet {
        None => return Err(AppError::DocumentNotFound),
        Some(ob) => ob,
    };
    match check_object_id(req.finisher_id.as_str()) {
        Err(e) => return Err(e),
        Ok(()) => {},
    }
    let b = match balance {
        None => return Err(AppError::DocumentNotFound),
        Some(b) => b,
    };
    if b < req.amount {
        return Err(AppError::ValidationError(kes_shortfall_message(b, req.amount)));
    }
    if !has_vote {
        return Err(validation("Finisher must vote on this fixture first"));
    }
    Ok(BetFill {
        auto_vote: None,
        new_balance: b as i128 - req.amount as i128,
        total_pot: ob.starter_amount as i128 + req.amount as i128,
    })
}

/// A request to pledge on a fixture and vote with the pledge.
#[derive(Debug, Clone)]
pub struct CreatePledgeAndVoteRequest {
    pub username: String,
    pub phone: String,
    pub selection: String,
    pub amount: i64,
    pub fan: String,
    pub home_team: String,
    pub away_team: String,
    pub starter_id: String,
    pub fixture_id: String,
    pub channel_id: Option<String>,
}

/// What accepting a pledge does: the selection as the pledge and vote store
/// it, the vote cast with the pledge (its counter) when the user had not
/// voted yet, and the user's balance afterwards.
#[derive(Debug, Clone)]
pub struct PledgePlan {
    pub stored_selection: String,
    pub auto_vote: Option<VoteField>,
    pub new_balance: i128,
}

/// The outcome of a pledge-with-vote request, in the order the checks are
/// made: username, phone and selection present, a positive amount, starter
/// and fixture ids present, a well-formed starter id, a known user whose
/// balance covers the amount, and a selection of `home`, `away` or `draw`.
pub open spec fn spec_pledge_with_vote(
    req: CreatePledgeAndVoteRequest,
    balance: Option<i64>,
    already_voted: bool,
    r: Result<PledgePlan, AppError>,
) -> bool {
    if req.username@.len() == 0 {
        r matches Err(e) && is_missing_field(e, "username"@)
    } else if req.phone@.len() == 0 {
        r matches Err(e) && is_missing_field(e, "phone"@)
    } else if req.selection@.len() == 0 {
        r matches Err(e) && is_missing_field(e, "selection"@)
    } else if req.amount <= 0 {
        r matches Err(e) && is_validation_error(e, "amount must be greater than 0"@)
    } else if req.starter_id@.len() == 0 {
        r matches Err(e) && is_missing_field(e, "starter_id"@)
    } else if req.fixture_id@.len() == 0 {
        r matches Err(e) && is_missing_field(e, "fixture_id"@)
    } else if !is_object_id(req.starter_id@) {
        r matches Err(e) && is_validation_error(e, "Invalid starter_id format"@)
    } else {
        match balance {
            None => r matches Err(e) && e == AppError::DocumentNotFound,
            Some(b) => if b < req.amount {
                r matches Err(e) && is_validation_error(e, spec_kes_shortfall(b as int, req.amount as int))
            } else if spec_vote_field(req.selection@) is None {
                r matches Err(e) && is_validation_error(e, "Invalid selection"@)
            } else {
                r matches Ok(p) && {
                    &&& p.stored_selection@ == spec_display_selection(req.selection@)
                    &&& p.auto_vote == (if already_voted { None } else { spec_vote_field(req.selection@) })
                    &&& p.new_balance == b - req.amount
                }
            },
        }
    }
}

/// Decides a pledge-with-vote request, given the starter's balance (`None`:
/// no such user) and whether the starter already voted on the fixture.
pub fn decide_pledge_with_vote(
    req: &CreatePledgeAndVoteRequest,
    balance: Option<i64>,
    already_voted: bool,
) -> (r: Result<PledgePlan, AppError>)
    ensures
        spec_pledge_with_vote(*req, balance, already_voted, r),
{
    if req.username.unicode_len() == 0 {
        return Err(AppError::MissingRequiredField(String::from_str("username")));
    }
    if req.phone.unicode_len() == 0 {
        return Err(AppError::MissingRequiredField(String::from_str("phone")));
    }
    if req.selection.unicode_len() == 0 {
        return Err(AppError::MissingRequiredField(String::from_str("selection")));
    }
    if req.amount <= 0 {
        return Err(validation("amount must be greater than 0"));
    }
    if req.starter_id.unicode_len() == 0 {
        return Err(AppError::MissingRequiredField(String::from_str("starter_id")));
    }
    if req.fixture_id.unicode_len() == 0 {
        return Err(AppError::MissingRequiredField(String::from_str("fixture_id")));
    }
    if check_object_id(req.starter_id.as_str()).is_err() {
        return Err(validation("Invalid starter_id format"));
    }
    let b = match balance {
        None => return Err(AppError::DocumentNotFound),
        Some(b) => b,
    };
    if b < req.amount {
        return Err(AppError::ValidationError(kes_shortfall_message(b, req.amount)));
    }
    let f = match vote_field(req.selection.as_str()) {
        None => return Err(validation("Invalid selection")),
        Some(f) => f,
    };
    Ok(PledgePlan {
        stored_selection: display_selection(req.selection.as_str()),
        auto_vote: if already_voted { None } else { Some(f) },
        new_balance: b as i128 - req.amount as i128,
    })
}

/// The channel notice for a new pledge: `Amina pledged KES 150.00`.
pub fn pledge_notice(name: &str, amount: i64) -> (s: String)
    ensures
        s@ == name@ + " pledged KES "@ + spec_amount_2dp(amount as int),
{
    let a = amount_2dp(amount);
    let mut s = String::from_str(name);
    s.append(" pledged KES ");
    s.append(a.as_str());
    s
}

/// The channel notice for a matched bet: `Baraka matched a bet with Amina`.
pub fn bet_matched_notice(finisher_name: &str, starter_name: &str) -> (s: String)
    ensures
        s@ == finisher_name@ + " matched a bet with "@ + starter_name@,
{
    let mut s = String::from_str(finisher_name);
    s.append(" matched a bet with ");
    s.append(starter_name);
    s
}

/// Opening a bet never overdraws: from a balance that is not negative, the
/// balance left after a bet is opened (directly or from a channel) is not
/// negative either.
pub proof fn law_bet_placement_never_overdraws(
    req: CreateBetRequest,
    already_voted: bool,
    balance: Option<i64>,
    r: Result<BetPlacement, AppError>,
    rc: Result<i128, AppError>,
)
    requires
        balance matches Some(b) ==> b >= 0,
        spec_bet_placement(req, already_voted, balance, r),
        spec_channel_bet_placement(req, balance, already_voted, rc),
    ensures
        r matches Ok(p) ==> p.new_balance >= 0,
        rc matches Ok(nb) ==> nb >= 0,
{
}

/// Filling a bet never overdraws: from a balance that is not negative, the
/// finisher's balance left after a fill (directly or from a channel) is not
/// negative either.
pub proof fn law_bet_fill_never_overdraws(
    req: FillBetRequest,
    bet: Option<OpenBet>,
    balance: Option<i64>,
    flag: bool,
    r: Result<BetFill, AppError>,
    rc: Result<BetFill, AppError>,
)
    requires
        balance matches Some(b) ==> b >= 0,
        spec_bet_fill(req, bet, balance, flag, r),
        spec_channel_bet_fill(req, bet, balance, flag, rc),
    ensures
        r matches Ok(f) ==> f.new_balance >= 0,
        rc matches Ok(f) ==> f.new_balance >= 0,
{
}

/// A pledge with a vote never overdraws: from a balance that is not
/// negative, the balance left is not negative either.
pub proof fn law_pledge_with_vote_never_overdraws(
    req: CreatePledgeAndVoteRequest,
    balance: Option<i64>,
    already_voted: bool,
    r: Result<PledgePlan, AppError>,
)
    requires
        balance matches Some(b) ==> b >= 0,
        spec_pledge_with_vote(req, balance, already_voted, r),
    ensures
        r matches Ok(p) ==> p.new_balance >= 0,
{
}

/// The matched bet a successful fill leaves: the open bet's starter and
/// stake, with the finisher's id, selection and stake.
pub open spec fn matched_from_fill(ob: OpenBet, starter_selection: String, req: FillBetRequest) -> crate::bets::MatchedBet {
    crate::bets::MatchedBet {
        starter_id: ob.starter_id,
        starter_selection,
        starter_amount: ob.starter_amount,
        finisher_id: Some(req.finisher_id),
        finisher_selection: Some(req.finisher_selection),
        finisher_amount: Some(req.amount),
    }
}

/// A bet that was filled settles to exactly the pot the fill recorded:
/// whatever the result, the credits of its settlement add up to the two
/// stakes.
pub proof fn law_filled_bet_settles_to_its_pot(
    req: FillBetRequest,
    ob: OpenBet,
    starter_selection: String,
    balance: Option<i64>,
    already_voted: bool,
    f: BetFill,
    result: Seq<char>,
    s: crate::bets::Settlement,
)
    requires
        spec_bet_fill(req, Some(ob), balance, already_voted, Ok(f)),
        crate::bets::spec_settle_matched(matched_from_fill(ob, starter_selection, req), result, s),
    ensures
        s.starter_credit + s.finisher_credit == f.total_pot,
{
    crate::bets::law_settlement_pays_out_the_pot(matched_from_fill(ob, starter_selection, req), result, s);
}

} // verus!
