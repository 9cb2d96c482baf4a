//! Head-to-head bets on a fixture: a starter stakes an amount on a
//! selection, a finisher takes the other side, and when the result is in
//! the pot is paid out, refunded or kept. Amounts are in cents.

use vstd::prelude::*;
use crate::text::str_eq;
use crate::errors::{AppError, is_invalid_object_id};
use crate::ids::{is_object_id, object_id_error_text, check_object_id};
use crate::money::{digits, push_digits};

verus! {

/// A copy of an optional string.
pub fn clone_opt(o: &Option<String>) -> (r: Option<String>)
    ensures
        r == *o,
{
    match o {
        Some(s) => Some(s.clone()),
        None => None,
    }
}

/// A bet that has both sides filled (or, in stored data, may miss its
/// finisher fields).
#[derive(Debug, Clone)]
pub struct MatchedBet {
    pub starter_id: String,
    pub starter_selection: String,
    pub starter_amount: i64,
    pub finisher_id: Option<String>,
    pub finisher_selection: Option<String>,
    pub finisher_amount: Option<i64>,
}

/// The finisher's stake, zero when it is missing.
pub open spec fn finisher_stake(b: MatchedBet) -> int {
    match b.finisher_amount {
        Some(a) => a as int,
        None => 0,
    }
}

/// Everything staked on the bet.
pub open spec fn pot(b: MatchedBet) -> int {
    b.starter_amount + finisher_stake(b)
}

/// The pot fits the amount type.
pub open spec fn pot_fits(b: MatchedBet) -> bool {
    i64::MIN <= pot(b) <= i64::MAX
}

/// The state a bet is left in once its fixture is settled.
#[derive(Debug, Clone, Copy, PartialEq, Eq, Structural)]
pub enum SettlementStatus {
    Settled,
    Refunded,
}

/// The outcome recorded for one side of a bet.
#[derive(Debug, Clone, Copy, PartialEq, Eq, Structural)]
pub enum PartyResult {
    Won,
    Lost,
    Draw,
    Unmatched,
}

/// What settling a bet does: the bet's new status, winner and per-side
/// outcomes, and the amounts credited back to the starter and to the
/// finisher (the finisher is only ever credited when the bet names one).
#[derive(Debug, Clone)]
pub struct Settlement {
    pub status: SettlementStatus,
    pub winner_id: Option<String>,
    pub starter_result: PartyResult,
    pub finisher_result: Option<PartyResult>,
    pub starter_credit: i64,
    pub finisher_credit: i64,
}

/// `r` is one of the three results a fixture can have.
pub open spec fn is_outcome(r: Seq<char>) -> bool {
    r == "home"@ || r == "away"@ || r == "draw"@
}

/// The finisher picked `r`.
pub open spec fn finisher_picked(b: MatchedBet, r: Seq<char>) -> bool {
    b.finisher_selection matches Some(s) && s@ == r
}

/// The starter called a valid result correctly.
pub open spec fn starter_called(b: MatchedBet, r: Seq<char>) -> bool {
    is_outcome(r) && b.starter_selection@ == r
}

/// The finisher called a valid result correctly.
pub open spec fn finisher_called(b: MatchedBet, r: Seq<char>) -> bool {
    is_outcome(r) && finisher_picked(b, r)
}

/// How a matched bet is settled against result `r`: the side that alone
/// called it takes the whole pot; otherwise (both or neither called it, or
/// `r` is not `home`, `away` or `draw`) both stakes are refunded.
pub open spec fn spec_settle_matched(b: MatchedBet, r: Seq<char>, s: Settlement) -> bool {
    let sw = starter_called(b, r);
    let fw = finisher_called(b, r);
    if sw && !fw {
        &&& s.status == SettlementStatus::Settled
        &&& s.winner_id == Some(b.starter_id)
        &&& s.starter_result == PartyResult::Won
        &&& s.finisher_result == Some(PartyResult::Lost)
        &&& s.starter_credit == pot(b)
        &&& s.finisher_credit == 0
    } else if fw && !sw {
        &&& s.status == SettlementStatus::Settled
        &&& s.winner_id == b.finisher_id
        &&& s.starter_result == PartyResult::Lost
        &&& s.finisher_result == Some(PartyResult::Won)
        &&& s.starter_credit == 0
        &&& s.finisher_credit == (if b.finisher_id is Some { pot(b) } else { 0 })
    } else {
        &&& s.status == SettlementStatus::Refunded
        &&& s.winner_id is None
        &&& s.starter_result == PartyResult::Draw
        &&& s.finisher_result == Some(PartyResult::Draw)
        &&& s.starter_credit == b.starter_amount
        &&& s.finisher_credit == (if b.finisher_id is Some { finisher_stake(b) } else { 0 })
    }
}

fn is_fixture_outcome(r: &str) -> (ok: bool)
    ensures
        ok == is_outcome(r@),
{
    str_eq(r, "home") || str_eq(r, "away") || str_eq(r, "draw")
}

fn picked(sel: &Option<String>, r: &str) -> (p: bool)
    ensures
        p == (sel matches Some(s) && s@ == r@),
{
    match sel {
        Some(s) => str_eq(s.as_str(), r),
        None => false,
    }
}

fn stake_of(a: Option<i64>) -> (v: i64)
    ensures
        v == match a {
            Some(x) => x,
            None => 0,
        },
{
    match a {
        Some(x) => x,
        None => 0,
    }
}

/// Settles one matched bet of a fixture whose result is `result`.
pub fn settle_matched_bet(b: &MatchedBet, result: &str) -> (s: Settlement)
    requires
        pot_fits(*b),
    ensures
        spec_settle_matched(*b, result@, s),
{
    let valid = is_fixture_outcome(result);
    let sw = valid && str_eq(b.starter_selection.as_str(), result);
    let fw = valid && picked(&b.finisher_selection, result);
    let fstake = stake_of(b.finisher_amount);
    let total = b.starter_amount + fstake;
    if sw && !fw {
        Settlement {
            status: SettlementStatus::Settled,
            winner_id: Some(b.starter_id.clone()),
            starter_result: PartyResult::Won,
            finisher_result: Some(PartyResult::Lost),
            starter_credit: total,
            finisher_credit: 0,
        }
    } else if fw && !sw {
        Settlement {
            status: SettlementStatus::Settled,
            winner_id: clone_opt(&b.finisher_id),
            starter_result: PartyResult::Lost,
            finisher_result: Some(PartyResult::Won),
            starter_credit: 0,
            finisher_credit: if b.finisher_id.is_some() { total } else { 0 },
        }
    } else {
        Settlement {
            status: SettlementStatus::Refunded,
            winner_id: None,
            starter_result: PartyResult::Draw,
            finisher_result: Some(PartyResult::Draw),
            starter_credit: b.starter_amount,
            finisher_credit: if b.finisher_id.is_some() { fstake } else { 0 },
        }
    }
}

/// An unmatched bet is refunded to its starter when the fixture settles.
pub fn refund_open_bet(starter_amount: i64) -> (s: Settlement)
    ensures
        s.status == SettlementStatus::Refunded,
        s.winner_id is None,
        s.starter_result == PartyResult::Unmatched,
        s.finisher_result is None,
        s.starter_credit == starter_amount,
        s.finisher_credit == 0,
{
    Settlement {
        status: SettlementStatus::Refunded,
        winner_id: None,
        starter_result: PartyResult::Unmatched,
        finisher_result: None,
        starter_credit: starter_amount,
        finisher_credit: 0,
    }
}

/// Settlement neither creates nor destroys money: whatever the result, a
/// matched bet with a named finisher pays back exactly its pot between the
/// two sides.
pub proof fn law_settlement_pays_out_the_pot(b: MatchedBet, r: Seq<char>, s: Settlement)
    requires
        b.finisher_id is Some,
        spec_settle_matched(b, r, s),
    ensures
        s.starter_credit + s.finisher_credit == pot(b),
{
}

/// The note a channel settlement records for each matched bet.
#[derive(Debug, Clone, Copy, PartialEq, Eq, Structural)]
pub enum SettlementNote {
    /// The winner was paid the pot.
    Payout,
    /// Both sides called the result; both stakes were refunded.
    DrawRefund,
    /// Nobody was paid; the house keeps the pot.
    HouseWins,
}

/// How a matched bet is settled in a channel against result `r`: the side
/// that alone picked `r` takes the pot; when both picked it both are
/// refunded; when neither did the house keeps the pot. The bet is marked
/// settled in every case.
pub open spec fn spec_settle_in_channel(
    b: MatchedBet,
    r: Seq<char>,
    s: Settlement,
    note: SettlementNote,
) -> bool {
    let sw = b.starter_selection@ == r;
    let fw = finisher_picked(b, r);
    &&& s.status == SettlementStatus::Settled
    &&& if sw && fw {
        &&& s.winner_id is None
        &&& s.starter_result == PartyResult::Draw
        &&& s.finisher_result == Some(PartyResult::Draw)
        &&& s.starter_credit == b.starter_amount
        &&& s.finisher_credit == (if b.finisher_id is Some { finisher_stake(b) } else { 0 })
        &&& note == SettlementNote::DrawRefund
    } else if sw {
        &&& s.winner_id == Some(b.starter_id)
        &&& s.starter_result == PartyResult::Won
        &&& s.finisher_result == Some(PartyResult::Lost)
        &&& s.starter_credit == pot(b)
        &&& s.finisher_credit == 0
        &&& note == SettlementNote::Payout
    } else if fw {
        &&& s.winner_id == b.finisher_id
        &&& s.starter_result == PartyResult::Lost
        &&& s.finisher_result == Some(PartyResult::Won)
        &&& s.starter_credit == 0
        &&& s.finisher_credit == (if b.finisher_id is Some { pot(b) } else { 0 })
        &&& note == (if b.finisher_id is Some { SettlementNote::Payout } else { SettlementNote::HouseWins })
    } else {
        &&& s.winner_id is None
        &&& s.starter_result == PartyResult::Lost
        &&& s.finisher_result == Some(PartyResult::Lost)
        &&& s.starter_credit == 0
        &&& s.finisher_credit == 0
        &&& note == SettlementNote::HouseWins
    }
}

/// Settles one matched bet of a channel fixture whose result is `result`.
pub fn settle_matched_bet_in_channel(b: &MatchedBet, result: &str) -> (out: (Settlement, SettlementNote))
    requires
        pot_fits(*b),
    ensures
        spec_settle_in_channel(*b, result@, out.0, out.1),
{
    let sw = str_eq(b.starter_selection.as_str(), result);
    let fw = picked(&b.finisher_selection, result);
    let fstake = stake_of(b.finisher_amount);
    let total = b.starter_amount + fstake;
    if sw && fw {
        (
            Settlement {
                status: SettlementStatus::Settled,
                winner_id: None,
                starter_result: PartyResult::Draw,
                finisher_result: Some(PartyResult::Draw),
                starter_credit: b.starter_amount,
                finisher_credit: if b.finisher_id.is_some() { fstake } else { 0 },
            },
            SettlementNote::DrawRefund,
        )
    } else if sw {
        (
            Settlement {
                status: SettlementStatus::Settled,
                winner_id: Some(b.starter_id.clone()),
                starter_result: PartyResult::Won,
                finisher_result: Some(PartyResult::Lost),
                starter_credit: total,
                finisher_credit: 0,
            },
            SettlementNote::Payout,
        )
    } else if fw {
        let named = b.finisher_id.is_some();
        (
            Settlement {
                status: SettlementStatus::Settled,
                winner_id: clone_opt(&b.finisher_id),
                starter_result: PartyResult::Lost,
                finisher_result: Some(PartyResult::Won),
                starter_credit: 0,
                finisher_credit: if named { total } else { 0 },
            },
            if named { SettlementNote::Payout } else { SettlementNote::HouseWins },
        )
    } else {
        (
            Settlement {
                status: SettlementStatus::Settled,
                winner_id: None,
                starter_result: PartyResult::Lost,
                finisher_result: Some(PartyResult::Lost),
                starter_credit: 0,
                finisher_credit: 0,
            },
            SettlementNote::HouseWins,
        )
    }
}

/// A channel settlement never pays out more than was staked: with
/// non-negative stakes, the two credits together are at most the pot, and
/// they are the whole pot unless the house keeps it.
pub proof fn law_channel_settlement_bounded_by_pot(
    b: MatchedBet,
    r: Seq<char>,
    s: Settlement,
    note: SettlementNote,
)
    requires
        b.starter_amount >= 0,
        finisher_stake(b) >= 0,
        b.finisher_id is Some,
        spec_settle_in_channel(b, r, s, note),
    ensures
        0 <= s.starter_credit + s.finisher_credit <= pot(b),
        note != SettlementNote::HouseWins ==> s.starter_credit + s.finisher_credit == pot(b),
{
}

/// Everything paid back by a run of settlements.
pub open spec fn total_credits(s: Seq<Settlement>) -> int
    decreases s.len(),
{
    if s.len() == 0 {
        0
    } else {
        total_credits(s.drop_last()) + s.last().starter_credit + s.last().finisher_credit
    }
}

/// Everything staked on a run of bets.
pub open spec fn total_pots(b: Seq<MatchedBet>) -> int
    decreases b.len(),
{
    if b.len() == 0 {
        0
    } else {
        total_pots(b.drop_last()) + pot(b.last())
    }
}

/// Settling a whole fixture pays back exactly what was staked on it: when
/// every matched bet names its finisher and each is settled against the
/// same result, the credits over all the bets add up to all the pots.
pub proof fn law_fixture_settlement_conserves_stakes(
    bets: Seq<MatchedBet>,
    r: Seq<char>,
    s: Seq<Settlement>,
)
    requires
        bets.len() == s.len(),
        forall|i: int| 0 <= i < bets.len() ==> (#[trigger] bets[i]).finisher_id is Some,
        forall|i: int| 0 <= i < bets.len() ==> spec_settle_matched(bets[i], r, #[trigger] s[i]),
    ensures
        total_credits(s) == total_pots(bets),
    decreases bets.len(),
{
    if bets.len() > 0 {
        let n = bets.len() - 1;
        assert(bets[n].finisher_id is Some);
        assert(spec_settle_matched(bets[n], r, s[n]));
        law_settlement_pays_out_the_pot(bets[n], r, s[n]);
        let bs = bets.drop_last();
        let ss = s.drop_last();
        assert forall|i: int| 0 <= i < bs.len() implies (#[trigger] bs[i]).finisher_id is Some by {
            assert(bs[i] == bets[i]);
        }
        assert forall|i: int| 0 <= i < bs.len() implies spec_settle_matched(bs[i], r, #[trigger] ss[i]) by {
            assert(bs[i] == bets[i]);
            assert(ss[i] == s[i]);
        }
        law_fixture_settlement_conserves_stakes(bs, r, ss);
    }
}

/// The ids a settlement against `r` credits, in the order they are
/// checked: the starter when the starter alone called it; the finisher (if
/// named) when the finisher alone called it; otherwise the starter and then
/// the finisher (if named).
pub open spec fn credited_ids(b: MatchedBet, r: Seq<char>) -> Seq<Seq<char>> {
    let sw = starter_called(b, r);
    let fw = finisher_called(b, r);
    let fin: Seq<Seq<char>> = match b.finisher_id {
        Some(f) => seq![f@],
        None => Seq::empty(),
    };
    if sw && !fw {
        seq![b.starter_id@]
    } else if fw && !sw {
        fin
    } else {
        seq![b.starter_id@] + fin
    }
}

/// The first id of `ids` that is not a well-formed object id, if any.
pub open spec fn first_malformed(ids: Seq<Seq<char>>) -> Option<Seq<char>>
    decreases ids.len(),
{
    if ids.len() == 0 {
        None
    } else if !is_object_id(ids[0]) {
        Some(ids[0])
    } else {
        first_malformed(ids.drop_first())
    }
}

fn first_bad_id(ids: &Vec<&str>) -> (r: Option<usize>)
    ensures
        match r {
            None => forall|i: int| 0 <= i < ids@.len() ==> is_object_id((#[trigger] ids@[i])@),
            Some(k) => k < ids@.len() && !is_object_id(ids@[k as int]@)
                && forall|i: int| 0 <= i < k ==> is_object_id((#[trigger] ids@[i])@),
        },
{
    let mut i: usize = 0;
    while i < ids.len()
        invariant
            i <= ids@.len(),
            forall|j: int| 0 <= j < i ==> is_object_id((#[trigger] ids@[j])@),
        decreases ids.len() - i,
    {
        if check_object_id(ids[i]).is_err() {
            return Some(i);
        }
        i = i + 1;
    }
    None
}

proof fn lemma_first_malformed(ids: Seq<Seq<char>>)
    ensures
        (forall|i: int| 0 <= i < ids.len() ==> is_object_id(#[trigger] ids[i])) ==> first_malformed(ids) is None,
        forall|k: int| 0 <= k < ids.len() && !is_object_id(ids[k])
            && (forall|i: int| 0 <= i < k ==> is_object_id(#[trigger] ids[i]))
            ==> first_malformed(ids) == Some(ids[k]),
    decreases ids.len(),
{
    if ids.len() > 0 {
        let t = ids.drop_first();
        lemma_first_malformed(t);
        assert forall|i: int| 0 <= i < t.len() implies t[i] == ids[i + 1] by {}
        if forall|i: int| 0 <= i < ids.len() ==> is_object_id(#[trigger] ids[i]) {
            assert(is_object_id(ids[0]));
            assert forall|i: int| 0 <= i < t.len() implies is_object_id(#[trigger] t[i]) by {
                assert(is_object_id(ids[i + 1]));
            }
        }
        assert forall|k: int| 0 <= k < ids.len() && !is_object_id(ids[k])
            && (forall|i: int| 0 <= i < k ==> is_object_id(#[trigger] ids[i]))
            implies first_malformed(ids) == Some(ids[k]) by {
            if k > 0 {
                assert(is_object_id(ids[0]));
                assert(t[k - 1] == ids[k]);
                assert forall|i: int| 0 <= i < k - 1 implies is_object_id(#[trigger] t[i]) by {
                    assert(is_object_id(ids[i + 1]));
                }
            }
        }
    }
}

/// Settles one matched bet as `settle_matched_bet` does, after checking
/// that every id it credits is a well-formed object id; the first
/// malformed one is reported as `InvalidObjectId`.
pub fn settle_matched_bet_checked(b: &MatchedBet, result: &str) -> (r: Result<Settlement, AppError>)
    requires
        pot_fits(*b),
    ensures
        match first_malformed(credited_ids(*b, result@)) {
            Some(id) => r matches Err(e) && is_invalid_object_id(e, object_id_error_text(id)),
            None => r matches Ok(s) && spec_settle_matched(*b, result@, s),
        },
{
    let valid = is_fixture_outcome(result);
    let sw = valid && str_eq(b.starter_selection.as_str(), result);
    let fw = valid && picked(&b.finisher_selection, result);
    let mut ids: Vec<&str> = Vec::new();
    if sw && !fw {
        ids.push(b.starter_id.as_str());
    } else if fw && !sw {
        match &b.finisher_id {
            Some(f) => ids.push(f.as_str()),
            None => {},
        }
    } else {
        ids.push(b.starter_id.as_str());
        match &b.finisher_id {
            Some(f) => ids.push(f.as_str()),
            None => {},
        }
    }
    let ghost want = credited_ids(*b, result@);
    proof {
        assert(ids@.map_values(|x: &str| x@) =~= want);
        lemma_first_malformed(want);
    }
    match first_bad_id(&ids) {
        Some(k) => {
            proof {
                assert(want[k as int] == ids@[k as int]@);
                assert forall|i: int| 0 <= i < k implies is_object_id(#[trigger] want[i]) by {
                    assert(want[i] == ids@[i]@);
                    assert(is_object_id(ids@[i]@));
                }
            }
            match check_object_id(ids[k]) {
                Err(e) => Err(e),
                Ok(()) => Err(AppError::DocumentNotFound),
            }
        },
        None => {
            proof {
                assert forall|i: int| 0 <= i < want.len() implies is_object_id(#[trigger] want[i]) by {
                    assert(want[i] == ids@[i]@);
                    assert(is_object_id(ids@[i]@));
                }
            }
            Ok(settle_matched_bet(b, result))
        },
    }
}

/// Refunds an unmatched bet as `refund_open_bet` does, after checking that
/// its starter id is a well-formed object id.
pub fn refund_open_bet_checked(starter_id: &str, starter_amount: i64) -> (r: Result<Settlement, AppError>)
    ensures
        !is_object_id(starter_id@) ==> (r matches Err(e) && is_invalid_object_id(e, object_id_error_text(starter_id@))),
        is_object_id(starter_id@) ==> (r matches Ok(s) && {
            &&& s.status == SettlementStatus::Refunded
            &&& s.winner_id is None
            &&& s.starter_result == PartyResult::Unmatched
            &&& s.finisher_result is None
            &&& s.starter_credit == starter_amount
            &&& s.finisher_credit == 0
        }),
{
    match check_object_id(starter_id) {
        Err(e) => Err(e),
        Ok(()) => Ok(refund_open_bet(starter_amount)),
    }
}

/// The summary reported once a fixture is settled:
/// `Settled 3 bets, refunded 1 unmatched bets`.
pub fn settlement_summary(settled: u64, refunded: u64) -> (s: String)
    ensures
        s@ == "Settled "@ + digits(settled as nat) + " bets, refunded "@ + digits(refunded as nat)
            + " unmatched bets"@,
{
    let mut s = String::from_str("Settled ");
    push_digits(&mut s, settled);
    s.append(" bets, refunded ");
    push_digits(&mut s, refunded);
    s.append(" unmatched bets");
    s
}

/// Names a fixture's final result, with which its bets are settled.
#[derive(Debug, Clone)]
pub struct SettleBetRequest {
    pub fixture_id: String,
    pub result: String,
}

/// Bet `b` is one between two members: it names a finisher and both its
/// sides are among `members`.
pub open spec fn between_members(b: MatchedBet, members: Seq<Seq<char>>) -> bool {
    b.finisher_id matches Some(f) && members.contains(b.starter_id@) && members.contains(f@)
}

/// The bets of a fixture that a channel shows: those between two of its
/// members, in their order (indices into `bets`).
pub fn channel_bettors(bets: &Vec<MatchedBet>, members: &Vec<String>) -> (r: Vec<usize>)
    ensures
        forall|i: int| 0 <= i < r@.len() ==> (#[trigger] r@[i]) < bets@.len(),
        forall|i: int, j: int| 0 <= i < j < r@.len() ==> (#[trigger] r@[i]) < (#[trigger] r@[j]),
        forall|x: int| 0 <= x < bets@.len()
            ==> (#[trigger] r@.contains(x as usize) <==> between_members(bets@[x], crate::text::views(members@))),
{
    let ghost ms = crate::text::views(members@);
    let mut r: Vec<usize> = Vec::new();
    let mut i: usize = 0;
    while i < bets.len()
        invariant
            i <= bets@.len(),
            ms == crate::text::views(members@),
            forall|k: int| 0 <= k < r@.len() ==> (#[trigger] r@[k]) < i,
            forall|a: int, b: int| 0 <= a < b < r@.len() ==> (#[trigger] r@[a]) < (#[trigger] r@[b]),
            forall|x: int| 0 <= x < i ==> (#[trigger] r@.contains(x as usize) <==> between_members(bets@[x], ms)),
        decreases bets.len() - i,
    {
        proof {
            crate::order::lemma_push_contains(r@, i);
            assert(!r@.contains(i));
        }
        let keep = match &bets[i].finisher_id {
            Some(f) => crate::text::contains_str(members, bets[i].starter_id.as_str())
                && crate::text::contains_str(members, f.as_str()),
            None => false,
        };
        proof {
            if keep {
                let f = bets@[i as int].finisher_id->0;
                let a = choose|a: int| 0 <= a < members@.len() && (#[trigger] members@[a])@ == bets@[i as int].starter_id@;
                let b = choose|b: int| 0 <= b < members@.len() && (#[trigger] members@[b])@ == f@;
                assert(ms[a] == bets@[i as int].starter_id@);
                assert(ms[b] == f@);
            } else if between_members(bets@[i as int], ms) {
                let f = bets@[i as int].finisher_id->0;
                let a = choose|a: int| 0 <= a < ms.len() && ms[a] == bets@[i as int].starter_id@;
                let b = choose|b: int| 0 <= b < ms.len() && ms[b] == f@;
                assert(members@[a]@ == bets@[i as int].starter_id@);
                assert(members@[b]@ == f@);
            }
        }
        if keep {
            r.push(i);
        }
        i = i + 1;
    }
    r
}

/// The ids a channel settlement against `r` credits, in the order they are
/// read: the winner when one side alone picked `r` (the finisher only when
/// named); the starter and then the finisher (if named) when both did;
/// none when neither did.
pub open spec fn channel_credited_ids(b: MatchedBet, r: Seq<char>) -> Seq<Seq<char>> {
    let sw = b.starter_selection@ == r;
    let fw = finisher_picked(b, r);
    let fin: Seq<Seq<char>> = match b.finisher_id {
        Some(f) => seq![f@],
        None => Seq::empty(),
    };
    if sw && fw {
        seq![b.starter_id@] + fin
    } else if sw {
        seq![b.starter_id@]
    } else if fw {
        fin
    } else {
        Seq::empty()
    }
}

/// Settles one matched bet of a channel fixture as
/// `settle_matched_bet_in_channel` does; the bet is marked settled first,
/// and then each id it credits is read as an object id, the first
/// malformed one being reported (its credit and any later one not made).
pub fn settle_matched_bet_in_channel_checked(b: &MatchedBet, result: &str) -> (out: (Settlement, SettlementNote, Result<(), AppError>))
    requires
        pot_fits(*b),
    ensures
        spec_settle_in_channel(*b, result@, out.0, out.1),
        match first_malformed(channel_credited_ids(*b, result@)) {
            Some(id) => out.2 matches Err(e) && is_invalid_object_id(e, object_id_error_text(id)),
            None => out.2 is Ok,
        },
{
    let (s, note) = settle_matched_bet_in_channel(b, result);
    let sw = str_eq(b.starter_selection.as_str(), result);
    let fw = picked(&b.finisher_selection, result);
    let mut ids: Vec<&str> = Vec::new();
    if sw {
        ids.push(b.starter_id.as_str());
    }
    if (sw && fw) || (fw && !sw) {
        match &b.finisher_id {
            Some(f) => ids.push(f.as_str()),
            None => {},
        }
    }
    let ghost want = channel_credited_ids(*b, result@);
    proof {
        assert(ids@.map_values(|x: &str| x@) =~= want);
        lemma_first_malformed(want);
    }
    let checked = match first_bad_id(&ids) {
        Some(k) => {
            proof {
                assert(want[k as int] == ids@[k as int]@);
                assert forall|i: int| 0 <= i < k implies is_object_id(#[trigger] want[i]) by {
                    assert(want[i] == ids@[i]@);
                    assert(is_object_id(ids@[i]@));
                }
            }
            match check_object_id(ids[k]) {
                Err(e) => Err(e),
                Ok(()) => Err(AppError::DocumentNotFound),
            }
        },
        None => {
            proof {
                assert forall|i: int| 0 <= i < want.len() implies is_object_id(#[trigger] want[i]) by {
                    assert(want[i] == ids@[i]@);
                    assert(is_object_id(ids@[i]@));
                }
            }
            Ok(())
        },
    };
    (s, note, checked)
}

} // verus!

verus! {

/// The ids settling the matched bets `m` against `r` credits, bet by bet in
/// order (see `credited_ids`).
pub open spec fn matched_credited_ids(m: Seq<MatchedBet>, r: Seq<char>) -> Seq<Seq<char>>
    decreases m.len(),
{
    if m.len() == 0 {
        Seq::empty()
    } else {
        matched_credited_ids(m.drop_last(), r) + credited_ids(m.last(), r)
    }
}

/// The starters of the open bets `o` (starter id and stake), in order.
pub open spec fn open_starter_ids(o: Seq<(String, i64)>) -> Seq<Seq<char>> {
    o.map_values(|p: (String, i64)| p.0@)
}

/// Every id settling a fixture credits, in the order they are read: those
/// of its matched bets, then the starters of its open bets.
pub open spec fn fixture_credited_ids(m: Seq<MatchedBet>, o: Seq<(String, i64)>, r: Seq<char>) -> Seq<Seq<char>> {
    matched_credited_ids(m, r) + open_starter_ids(o)
}

/// The refund of an open bet with stake `amount` (see `refund_open_bet`).
pub open spec fn is_open_refund(s: Settlement, amount: i64) -> bool {
    &&& s.status == SettlementStatus::Refunded
    &&& s.winner_id is None
    &&& s.starter_result == PartyResult::Unmatched
    &&& s.finisher_result is None
    &&& s.starter_credit == amount
    &&& s.finisher_credit == 0
}

/// What settling a fixture's bets does: one settlement per matched bet and
/// one refund per open bet, in their order, with the two counts and the
/// summary the settlement reports.
#[derive(Debug, Clone)]
pub struct FixtureSettlement {
    pub settlements: Vec<Settlement>,
    pub refunds: Vec<Settlement>,
    pub settled: u64,
    pub refunded: u64,
    pub message: String,
}

proof fn lemma_first_malformed_append(a: Seq<Seq<char>>, b: Seq<Seq<char>>)
    ensures
        first_malformed(a + b) == (if first_malformed(a) is Some { first_malformed(a) } else { first_malformed(b) }),
    decreases a.len(),
{
    if a.len() == 0 {
        assert(a + b =~= b);
    } else {
        assert((a + b)[0] == a[0]);
        assert((a + b).drop_first() =~= a.drop_first() + b);
        lemma_first_malformed_append(a.drop_first(), b);
    }
}

/// Settles the bets of a fixture against `result`: each matched bet as
/// `settle_matched_bet` does, then each open bet (starter id and stake) is
/// refunded to its starter, and the summary counts them all. The ids the
/// settlement credits are read in order (`fixture_credited_ids`); the first
/// that is not a well-formed object id stops it with `InvalidObjectId`.
pub fn settle_fixture(matched: &Vec<MatchedBet>, open: &Vec<(String, i64)>, result: &str) -> (r: Result<FixtureSettlement, AppError>)
    requires
        forall|i: int| 0 <= i < matched@.len() ==> pot_fits(#[trigger] matched@[i]),
    ensures
        match first_malformed(fixture_credited_ids(matched@, open@, result@)) {
            Some(id) => r matches Err(e) && is_invalid_object_id(e, object_id_error_text(id)),
            None => r matches Ok(f) && {
                &&& f.settlements@.len() == matched@.len()
                &&& forall|i: int| 0 <= i < matched@.len() ==> spec_settle_matched(matched@[i], result@, #[trigger] f.settlements@[i])
                &&& f.refunds@.len() == open@.len()
                &&& forall|i: int| 0 <= i < open@.len() ==> is_open_refund(#[trigger] f.refunds@[i], open@[i].1)
                &&& f.settled == matched@.len()
                &&& f.refunded == open@.len()
                &&& f.message@ == "Settled "@ + digits(matched@.len()) + " bets, refunded "@
                    + digits(open@.len()) + " unmatched bets"@
            },
        },
{
    let ghost all = fixture_credited_ids(matched@, open@, result@);
    let mut settlements: Vec<Settlement> = Vec::new();
    let mut i: usize = 0;
    proof {
        assert(matched@.take(0) =~= Seq::<MatchedBet>::empty());
    }
    while i < matched.len()
        invariant
            i <= matched@.len(),
            all == fixture_credited_ids(matched@, open@, result@),
            forall|k: int| 0 <= k < matched@.len() ==> pot_fits(#[trigger] matched@[k]),
            first_malformed(matched_credited_ids(matched@.take(i as int), result@)) is None,
            settlements@.len() == i,
            forall|k: int| 0 <= k < i ==> spec_settle_matched(matched@[k], result@, #[trigger] settlements@[k]),
        decreases matched.len() - i,
    {
        let ghost before = matched_credited_ids(matched@.take(i as int), result@);
        let ghost here = credited_ids(matched@[i as int], result@);
        proof {
            assert(matched@.take(i + 1).drop_last() =~= matched@.take(i as int));
            assert(matched@.take(i + 1).last() == matched@[i as int]);
            assert(matched_credited_ids(matched@.take(i + 1), result@) == before + here);
            lemma_first_malformed_append(before, here);
        }
        match settle_matched_bet_checked(&matched[i], result) {
            Err(e) => {
                proof {
                    lemma_matched_ids_split(matched@, i as int, result@);
                    let x = matched_credited_ids(matched@.skip(i + 1), result@);
                    let o = open_starter_ids(open@);
                    let rest = x + o;
                    assert(all == before + here + x + o);
                    assert(before + here + x + o =~= before + (here + rest));
                    lemma_first_malformed_append(before, here + rest);
                    lemma_first_malformed_append(here, rest);
                }
                return Err(e);
            },
            Ok(s) => {
                settlements.push(s);
            },
        }
        i = i + 1;
    }
    proof {
        assert(matched@.take(matched@.len() as int) =~= matched@);
    }
    let ghost mids = matched_credited_ids(matched@, result@);
    let mut refunds: Vec<Settlement> = Vec::new();
    let mut j: usize = 0;
    proof {
        assert(open_starter_ids(open@.take(0)) =~= Seq::<Seq<char>>::empty());
        assert(mids + open_starter_ids(open@.take(0)) =~= mids);
    }
    while j < open.len()
        invariant
            j <= open@.len(),
            all == fixture_credited_ids(matched@, open@, result@),
            mids == matched_credited_ids(matched@, result@),
            first_malformed(mids) is None,
            first_malformed(open_starter_ids(open@.take(j as int))) is None,
            refunds@.len() == j,
            forall|k: int| 0 <= k < j ==> is_open_refund(#[trigger] refunds@[k], open@[k].1),
        decreases open.len() - j,
    {
        let ghost before = open_starter_ids(open@.take(j as int));
        let ghost here = seq![open@[j as int].0@];
        proof {
            assert(open_starter_ids(open@.take(j + 1)) =~= before + here);
            lemma_first_malformed_append(before, here);
            reveal_with_fuel(first_malformed, 2);
        }
        match refund_open_bet_checked(open[j].0.as_str(), open[j].1) {
            Err(e) => {
                proof {
                    let rest = open_starter_ids(open@.skip(j + 1));
                    assert(open@ =~= open@.take(j + 1) + open@.skip(j + 1));
                    assert(open_starter_ids(open@) =~= open_starter_ids(open@.take(j + 1)) + rest);
                    assert(open_starter_ids(open@) =~= before + here + rest);
                    assert(all == mids + (before + here + rest));
                    assert(mids + (before + here + rest) =~= mids + (before + (here + rest)));
                    lemma_first_malformed_append(mids, before + (here + rest));
                    lemma_first_malformed_append(before, here + rest);
                    lemma_first_malformed_append(here, rest);
                }
                return Err(e);
            },
            Ok(s) => {
                refunds.push(s);
            },
        }
        j = j + 1;
    }
    proof {
        assert(open@.take(open@.len() as int) =~= open@);
        lemma_first_malformed_append(mids, open_starter_ids(open@));
    }
    let settled = matched.len() as u64;
    let refunded = open.len() as u64;
    let message = settlement_summary(settled, refunded);
    Ok(FixtureSettlement { settlements, refunds, settled, refunded, message })
}

proof fn lemma_matched_ids_append(a: Seq<MatchedBet>, b: Seq<MatchedBet>, r: Seq<char>)
    ensures
        matched_credited_ids(a + b, r) == matched_credited_ids(a, r) + matched_credited_ids(b, r),
    decreases b.len(),
{
    if b.len() == 0 {
        assert(a + b =~= a);
        assert(matched_credited_ids(a, r) + matched_credited_ids(b, r) =~= matched_credited_ids(a, r));
    } else {
        assert((a + b).drop_last() =~= a + b.drop_last());
        assert((a + b).last() == b.last());
        lemma_matched_ids_append(a, b.drop_last(), r);
        assert(matched_credited_ids(a + b, r) =~= matched_credited_ids(a, r) + matched_credited_ids(b, r));
    }
}

proof fn lemma_matched_ids_split(m: Seq<MatchedBet>, i: int, r: Seq<char>)
    requires
        0 <= i < m.len(),
    ensures
        matched_credited_ids(m, r) == matched_credited_ids(m.take(i), r) + credited_ids(m[i], r)
            + matched_credited_ids(m.skip(i + 1), r),
{
    assert(m =~= m.take(i + 1) + m.skip(i + 1));
    lemma_matched_ids_append(m.take(i + 1), m.skip(i + 1), r);
    assert(m.take(i + 1).drop_last() =~= m.take(i));
    assert(m.take(i + 1).last() == m[i]);
}

} // verus!
