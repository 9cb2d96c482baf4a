//! Sub-fixture markets: side bets on events within a match (first goal,
//! first card, first corner). A market is keyed by match and type; a bet on
//! it is opened on one option and filled on another with an equal stake;
//! when the market is settled the side that picked the winning option takes
//! the pot, and everything else is refunded. Amounts are in cents.

use vstd::prelude::*;
use crate::errors::{AppError, is_validation_error, is_invalid_object_id};
use crate::ids::{is_object_id, object_id_error_text, check_object_id, lower_hex, same_object_id};
use crate::money::{digits, push_digits, spec_amount_short, amount_short};
use crate::text::{str_eq, concat, views};
use crate::wagers::{spec_shortfall, shortfall_message};

verus! {

fn validation(msg: &str) -> (e: AppError)
    ensures
        is_validation_error(e, msg@),
{
    AppError::ValidationError(String::from_str(msg))
}

/// The key of the market of type `market_type` on match `match_id`:
/// `m42_first_goal`.
pub open spec fn spec_market_id(match_id: Seq<char>, market_type: Seq<char>) -> Seq<char> {
    match_id + "_"@ + market_type
}

/// The key of a market.
pub fn market_id_for(match_id: &str, market_type: &str) -> (s: String)
    ensures
        s@ == spec_market_id(match_id@, market_type@),
{
    let mut s = concat(match_id, "_");
    s.append(market_type);
    s
}

/// The market types every match gets, in order.
pub open spec fn default_market_types() -> Seq<Seq<char>> {
    seq!["first_goal"@, "first_card"@, "first_corner"@]
}

/// The keys and types of the default markets of a match, in order.
pub fn default_markets(match_id: &str) -> (v: Vec<(String, String)>)
    ensures
        v@.len() == 3,
        forall|i: int| 0 <= i < 3 ==> (#[trigger] v@[i]).1@ == default_market_types()[i]
            && v@[i].0@ == spec_market_id(match_id@, default_market_types()[i]),
{
    let mut v: Vec<(String, String)> = Vec::new();
    v.push((market_id_for(match_id, "first_goal"), String::from_str("first_goal")));
    v.push((market_id_for(match_id, "first_card"), String::from_str("first_card")));
    v.push((market_id_for(match_id, "first_corner"), String::from_str("first_corner")));
    v
}

/// The options of a default market, in order.
pub fn default_options() -> (v: Vec<String>)
    ensures
        v@.len() == 2,
        v@[0]@ == "home"@,
        v@[1]@ == "away"@,
{
    let mut v: Vec<String> = Vec::new();
    v.push(String::from_str("home"));
    v.push(String::from_str("away"));
    v
}

/// The options of a new market with their distinct names, first
/// occurrence first; each starts with no pledges and a zero total.
pub fn tally_keys(options: &Vec<String>) -> (keys: Vec<String>)
    ensures
        views(keys@).to_set() == views(options@).to_set(),
        views(keys@).no_duplicates(),
{
    crate::text::distinct_strings(options)
}

/// A request to create a market.
#[derive(Debug, Clone)]
pub struct CreateSubFixtureMarketRequest {
    pub match_id: String,
    pub market_type: String,
    pub options: Vec<String>,
}

/// A request to create a market must offer at least one option.
pub fn check_market_request(req: &CreateSubFixtureMarketRequest) -> (r: Result<(), AppError>)
    ensures
        req.options@.len() == 0 ==> (r matches Err(e) && is_validation_error(e, "options must not be empty"@)),
        req.options@.len() > 0 ==> r is Ok,
{
    if req.options.len() == 0 {
        return Err(validation("options must not be empty"));
    }
    Ok(())
}

/// The key a non-empty market reference resolves to, given the key of the
/// market whose document id it spells (when it spells one and such a market
/// exists) and the key of the market found under it as a key on the match:
/// a document id that names a market wins; otherwise the reference must be
/// a key of the match.
pub open spec fn resolved_key(raw: Seq<char>, by_oid: Option<String>, by_key: Option<String>) -> Option<Seq<char>> {
    if is_object_id(raw) && by_oid is Some {
        Some(by_oid->0@)
    } else {
        match by_key {
            None => None,
            Some(k) => Some(k@),
        }
    }
}

/// How a market reference is resolved: an empty one is refused, one that
/// resolves to no key is not found.
pub open spec fn spec_resolve_market(
    raw: Seq<char>,
    by_oid: Option<String>,
    by_key: Option<String>,
    r: Result<String, AppError>,
) -> bool {
    if raw.len() == 0 {
        r matches Err(e) && is_validation_error(e, "market_id is required"@)
    } else {
        match resolved_key(raw, by_oid, by_key) {
            None => r == Err::<String, AppError>(AppError::DocumentNotFound),
            Some(k) => r matches Ok(x) && x@ == k,
        }
    }
}

/// Resolves a market reference (see `spec_resolve_market`).
pub fn resolve_market_id(raw: &str, by_oid: &Option<String>, by_key: &Option<String>) -> (r: Result<String, AppError>)
    ensures
        spec_resolve_market(raw@, *by_oid, *by_key, r),
{
    if raw.unicode_len() == 0 {
        return Err(validation("market_id is required"));
    }
    if check_object_id(raw).is_ok() {
        match by_oid {
            Some(k) => return Ok(k.clone()),
            None => {},
        }
    }
    match by_key {
        None => Err(AppError::DocumentNotFound),
        Some(k) => Ok(k.clone()),
    }
}

/// A market as far as bets read it.
#[derive(Debug, Clone)]
pub struct MarketInfo {
    pub market_type: String,
    pub status: String,
}

/// A match still takes bets while it is `upcoming` or `not_started`.
pub open spec fn takes_bets(status: Seq<char>) -> bool {
    status == "upcoming"@ || status == "not_started"@
}

fn match_takes_bets(status: &str) -> (r: bool)
    ensures
        r == takes_bets(status@),
{
    str_eq(status, "upcoming") || str_eq(status, "not_started")
}

/// A request to open a bet on a market.
#[derive(Debug, Clone)]
pub struct CreateSubFixtureBetRequest {
    pub match_id: String,
    pub market_id: String,
    pub starter_id: String,
    pub starter_name: String,
    pub selection: String,
    pub amount: i64,
}

/// The whole shillings of a positive amount, as the market's running total
/// counts them (truncated, and capped at the counter's range).
pub open spec fn whole_shillings(cents: int) -> int {
    if cents / 100 > i32::MAX { i32::MAX as int } else { cents / 100 }
}

/// What opening a market bet does: the market key it is recorded under,
/// the starter's balance afterwards, the counters it moves and by how much.
#[derive(Debug, Clone)]
pub struct SubBetCreation {
    pub market_id: String,
    pub new_balance: i128,
    pub count_key: String,
    pub total_key: String,
    pub total_increment: i32,
}

/// The outcome of opening a market bet, in the order the checks are made:
/// a positive amount, a well-formed starter id, a market reference that
/// resolves, an existing market that is open, an existing match that still
/// takes bets, no other active bet by the starter on the market, and a
/// known starter whose balance covers the amount.
pub open spec fn spec_sub_bet_creation(
    req: CreateSubFixtureBetRequest,
    by_oid: Option<String>,
    by_key: Option<String>,
    market: Option<MarketInfo>,
    game_status: Option<String>,
    has_active: bool,
    balance: Option<i64>,
    r: Result<SubBetCreation, AppError>,
) -> bool {
    if req.amount <= 0 {
        r matches Err(e) && is_validation_error(e, "Amount must be greater than 0"@)
    } else if !is_object_id(req.starter_id@) {
        r matches Err(e) && is_invalid_object_id(e, object_id_error_text(req.starter_id@))
    } else if req.market_id@.len() == 0 {
        r matches Err(e) && is_validation_error(e, "market_id is required"@)
    } else if resolved_key(req.market_id@, by_oid, by_key) is None {
        r == Err::<SubBetCreation, AppError>(AppError::DocumentNotFound)
    } else {
        let key = resolved_key(req.market_id@, by_oid, by_key)->0;
        match market {
            None => r == Err::<SubBetCreation, AppError>(AppError::DocumentNotFound),
            Some(m) => if m.status@ != "open"@ {
                r matches Err(e) && is_validation_error(e, "Market is not open (status: "@ + m.status@ + ")"@)
            } else {
                match game_status {
                    None => r == Err::<SubBetCreation, AppError>(AppError::DocumentNotFound),
                    Some(gs) => if !takes_bets(gs@) {
                        r matches Err(e) && is_validation_error(e, "Match is no longer accepting bets"@)
                    } else if has_active {
                        r matches Err(e) && is_validation_error(e, "You already have an active bet on this market"@)
                    } else {
                        match balance {
                            None => r == Err::<SubBetCreation, AppError>(AppError::DocumentNotFound),
                            Some(b) => if b < req.amount {
                                r matches Err(e) && is_validation_error(e, spec_shortfall(b as int, req.amount as int))
                            } else {
                                r matches Ok(c) && {
                                    &&& c.market_id@ == key
                                    &&& c.new_balance == b - req.amount
                                    &&& c.count_key@ == "pledgeCounts."@ + req.selection@
                                    &&& c.total_key@ == "pledgeTotals."@ + req.selection@
                                    &&& c.total_increment == whole_shillings(req.amount as int)
                                }
                            },
                        }
                    },
                }
            },
        }
    }
}

/// Decides a request to open a market bet, given the market-reference
/// lookups (see `resolve_market_id`), the market under the resolved key,
/// the match's status, whether the starter already has an open or matched
/// bet on the market, and the starter's balance.
pub fn decide_sub_bet_creation(
    req: &CreateSubFixtureBetRequest,
    by_oid: &Option<String>,
    by_key: &Option<String>,
    market: &Option<MarketInfo>,
    game_status: &Option<String>,
    has_active: bool,
    balance: Option<i64>,
) -> (r: Result<SubBetCreation, AppError>)
    ensures
        spec_sub_bet_creation(*req, *by_oid, *by_key, *market, *game_status, has_active, balance, r),
{
    if req.amount <= 0 {
        return Err(validation("Amount must be greater than 0"));
    }
    match check_object_id(req.starter_id.as_str()) {
        Err(e) => return Err(e),
        Ok(()) => {},
    }
    let key = match resolve_market_id(req.market_id.as_str(), by_oid, by_key) {
        Err(e) => return Err(e),
        Ok(k) => k,
    };
    let m = match market {
        None => return Err(AppError::DocumentNotFound),
        Some(m) => m,
    };
    if !str_eq(m.status.as_str(), "open") {
        let mut msg = concat("Market is not open (status: ", m.status.as_str());
        msg.append(")");
        return Err(AppError::ValidationError(msg));
    }
    let gs = match game_status {
        None => return Err(AppError::DocumentNotFound),
        Some(gs) => gs,
    };
    if !match_takes_bets(gs.as_str()) {
        return Err(validation("Match is no longer accepting bets"));
    }
    if has_active {
        return Err(validation("You already have an active bet on this market"));
    }
    let b = match balance {
        None => return Err(AppError::DocumentNotFound),
        Some(b) => b,
    };
    if b < req.amount {
        return Err(AppError::ValidationError(shortfall_message(b, req.amount)));
    }
    let whole = req.amount / 100;
    let inc: i32 = if whole > 0x7fff_ffff { 0x7fff_ffff } else { whole as i32 };
    Ok(SubBetCreation {
        market_id: key,
        new_balance: b as i128 - req.amount as i128,
        count_key: concat("pledgeCounts.", req.selection.as_str()),
        total_key: concat("pledgeTotals.", req.selection.as_str()),
        total_increment: inc,
    })
}

/// Where a market bet stands.
#[derive(Debug, Clone, Copy, PartialEq, Eq, Structural)]
pub enum BetStatus {
    Open,
    Matched,
    Settled,
    Refunded,
    Cancelled,
}

/// A market bet as the store holds it. The starter and finisher ids are
/// the hexadecimal spellings of their object ids.
#[derive(Debug, Clone)]
pub struct SubFixtureBet {
    pub match_id: String,
    pub market_id: String,
    pub starter_id: String,
    pub starter_name: String,
    pub starter_selection: String,
    pub starter_amount: i64,
    pub finisher_id: Option<String>,
    pub finisher_name: Option<String>,
    pub finisher_selection: Option<String>,
    pub finisher_amount: Option<i64>,
    pub status: BetStatus,
    pub total_pot: i64,
}

/// A request to take the other side of a market bet.
#[derive(Debug, Clone)]
pub struct FillSubFixtureBetRequest {
    pub match_id: String,
    pub market_id: String,
    pub finisher_id: String,
    pub finisher_name: String,
    pub selection: String,
    pub amount: i64,
}

/// What filling a market bet does: the market key, the finisher's balance
/// afterwards and the bet's new pot.
#[derive(Debug, Clone)]
pub struct SubBetFill {
    pub market_id: String,
    pub new_balance: i128,
    pub total_pot: i128,
}

/// The outcome of filling market bet `bet_id`, in the order the checks are
/// made: a positive amount, well-formed bet and finisher ids, a market
/// reference that resolves, the open bet under that id on the market, an
/// existing match that still takes bets, the other side from the starter's,
/// the starter's exact stake, a finisher other than the starter, no other
/// active bet by the finisher on the market, and a known finisher whose
/// balance covers the amount.
pub open spec fn spec_sub_bet_fill(
    bet_id: Seq<char>,
    req: FillSubFixtureBetRequest,
    by_oid: Option<String>,
    by_key: Option<String>,
    bet: Option<SubFixtureBet>,
    game_status: Option<String>,
    has_active: bool,
    balance: Option<i64>,
    r: Result<SubBetFill, AppError>,
) -> bool {
    if req.amount <= 0 {
        r matches Err(e) && is_validation_error(e, "Amount must be greater than 0"@)
    } else if !is_object_id(bet_id) {
        r matches Err(e) && is_invalid_object_id(e, object_id_error_text(bet_id))
    } else if !is_object_id(req.finisher_id@) {
        r matches Err(e) && is_invalid_object_id(e, object_id_error_text(req.finisher_id@))
    } else if req.market_id@.len() == 0 {
        r matches Err(e) && is_validation_error(e, "market_id is required"@)
    } else if resolved_key(req.market_id@, by_oid, by_key) is None {
        r == Err::<SubBetFill, AppError>(AppError::DocumentNotFound)
    } else {
        let key = resolved_key(req.market_id@, by_oid, by_key)->0;
        match bet {
            None => r matches Err(e) && is_validation_error(e, "Open bet not found"@),
            Some(ob) => match game_status {
                None => r == Err::<SubBetFill, AppError>(AppError::DocumentNotFound),
                Some(gs) => if !takes_bets(gs@) {
                    r matches Err(e) && is_validation_error(e, "Match is no longer accepting bets"@)
                } else if req.selection@ == ob.starter_selection@ {
                    r matches Err(e) && is_validation_error(e, "Cannot pick the same side as the starter"@)
                } else if req.amount != ob.starter_amount {
                    r matches Err(e) && is_validation_error(e,
                        "Amount must exactly match starter's stake of "@ + spec_amount_short(ob.starter_amount as int))
                } else if lower_hex(ob.starter_id@) == lower_hex(req.finisher_id@) {
                    r matches Err(e) && is_validation_error(e, "Cannot fill your own bet"@)
                } else if has_active {
                    r matches Err(e) && is_validation_error(e, "You already have an active bet on this market"@)
                } else {
                    match balance {
                        None => r == Err::<SubBetFill, AppError>(AppError::DocumentNotFound),
                        Some(b) => if b < req.amount {
                            r matches Err(e) && is_validation_error(e, spec_shortfall(b as int, req.amount as int))
                        } else {
                            r matches Ok(f) && {
                                &&& f.market_id@ == key
                                &&& f.new_balance == b - req.amount
                                &&& f.total_pot == ob.starter_amount + req.amount
                            }
                        },
                    }
                },
            },
        }
    }
}

/// Decides a request to fill market bet `bet_id`, given the
/// market-reference lookups (see `resolve_market_id`), the open bet under
/// that id on the resolved market, the match's status, whether the finisher
/// already has an open or matched bet on the market, and the finisher's
/// balance.
pub fn decide_sub_bet_fill(
    bet_id: &str,
    req: &FillSubFixtureBetRequest,
    by_oid: &Option<String>,
    by_key: &Option<String>,
    bet: &Option<SubFixtureBet>,
    game_status: &Option<String>,
    has_active: bool,
    balance: Option<i64>,
) -> (r: Result<SubBetFill, AppError>)
    ensures
        spec_sub_bet_fill(bet_id@, *req, *by_oid, *by_key, *bet, *game_status, has_active, balance, r),
{
    if req.amount <= 0 {
        return Err(validation("Amount must be greater than 0"));
    }
    match check_object_id(bet_id) {
        Err(e) => return Err(e),
        Ok(()) => {},
    }
    match check_object_id(req.finisher_id.as_str()) {
        Err(e) => return Err(e),
        Ok(()) => {},
    }
    let key = match resolve_market_id(req.market_id.as_str(), by_oid, by_key) {
        Err(e) => return Err(e),
        Ok(k) => k,
    };
    let ob = match bet {
        None => return Err(validation("Open bet not found")),
        Some(ob) => ob,
    };
    let gs = match game_status {
        None => return Err(AppError::DocumentNotFound),
        Some(gs) => gs,
    };
    if !match_takes_bets(gs.as_str()) {
        return Err(validation("Match is no longer accepting bets"));
    }
    if str_eq(req.selection.as_str(), ob.starter_selection.as_str()) {
        return Err(validation("Cannot pick the same side as the starter"));
    }
    if req.amount != ob.starter_amount {
        let stake = amount_short(ob.starter_amount);
        return Err(AppError::ValidationError(concat("Amount must exactly match starter's stake of ", stake.as_str())));
    }
    if same_object_id(ob.starter_id.as_str(), req.finisher_id.as_str()) {
        return Err(validation("Cannot fill your own bet"));
    }
    if has_active {
        return Err(validation("You already have an active bet on this market"));
    }
    let b = match balance {
        None => return Err(AppError::DocumentNotFound),
        Some(b) => b,
    };
    if b < req.amount {
        return Err(AppError::ValidationError(shortfall_message(b, req.amount)));
    }
    Ok(SubBetFill {
        market_id: key,
        new_balance: b as i128 - req.amount as i128,
        total_pot: ob.starter_amount as i128 + req.amount as i128,
    })
}

/// What settling one market bet does: its new status and what is credited
/// to each side.
#[derive(Debug, Clone, Copy, PartialEq, Eq, Structural)]
pub struct SubSettlement {
    pub status: BetStatus,
    pub starter_credit: i64,
    pub finisher_credit: i64,
}

/// How a matched market bet is settled when the winning option is `w`
/// (`None`: no winner): the starter takes the pot when they picked it;
/// else the finisher (if named) takes it when they picked it; otherwise
/// both stakes go back (the finisher's only when the bet names the
/// finisher and the finisher's stake).
pub open spec fn spec_sub_settle(b: SubFixtureBet, w: Option<Seq<char>>, s: SubSettlement) -> bool {
    if w is Some && w->0 == b.starter_selection@ {
        s == SubSettlement { status: BetStatus::Settled, starter_credit: b.total_pot, finisher_credit: 0 }
    } else if w is Some && (b.finisher_selection matches Some(f) && f@ == w->0) {
        s == SubSettlement {
            status: BetStatus::Settled,
            starter_credit: 0,
            finisher_credit: if b.finisher_id is Some { b.total_pot } else { 0 },
        }
    } else {
        s == SubSettlement {
            status: BetStatus::Refunded,
            starter_credit: b.starter_amount,
            finisher_credit: match (b.finisher_id, b.finisher_amount) {
                (Some(_), Some(a)) => a,
                _ => 0,
            },
        }
    }
}

/// The winning option as a plain value.
pub open spec fn winning_view(w: Option<String>) -> Option<Seq<char>> {
    match w {
        Some(x) => Some(x@),
        None => None,
    }
}

/// Settles one matched market bet.
pub fn settle_sub_bet(b: &SubFixtureBet, winning: &Option<String>) -> (s: SubSettlement)
    ensures
        spec_sub_settle(*b, winning_view(*winning), s),
{
    let starter_wins = match winning {
        Some(w) => str_eq(w.as_str(), b.starter_selection.as_str()),
        None => false,
    };
    let finisher_wins = match (winning, &b.finisher_selection) {
        (Some(w), Some(f)) => str_eq(f.as_str(), w.as_str()),
        _ => false,
    };
    if starter_wins {
        SubSettlement { status: BetStatus::Settled, starter_credit: b.total_pot, finisher_credit: 0 }
    } else if finisher_wins {
        SubSettlement {
            status: BetStatus::Settled,
            starter_credit: 0,
            finisher_credit: if b.finisher_id.is_some() { b.total_pot } else { 0 },
        }
    } else {
        let fc = match (&b.finisher_id, b.finisher_amount) {
            (Some(_), Some(a)) => a,
            _ => 0,
        };
        SubSettlement { status: BetStatus::Refunded, starter_credit: b.starter_amount, finisher_credit: fc }
    }
}

/// A matched market bet is balanced when it names its finisher and the
/// finisher's stake, and its pot is the two stakes.
pub open spec fn balanced(b: SubFixtureBet) -> bool {
    &&& b.finisher_id is Some
    &&& b.finisher_amount is Some
    &&& b.total_pot == b.starter_amount + b.finisher_amount->0
}

/// Settling a balanced market bet pays back exactly its pot, whoever wins
/// and also when nobody does.
pub proof fn law_sub_settlement_pays_out_the_pot(b: SubFixtureBet, w: Option<Seq<char>>, s: SubSettlement)
    requires
        balanced(b),
        spec_sub_settle(b, w, s),
    ensures
        s.starter_credit + s.finisher_credit == b.total_pot,
{
}

/// Settling a market with no winner (as is done when a match is archived
/// with its markets still open) refunds every stake of every matched bet.
pub proof fn law_no_winner_refunds_everyone(b: SubFixtureBet, s: SubSettlement)
    requires
        spec_sub_settle(b, None, s),
    ensures
        s.status == BetStatus::Refunded,
        s.starter_credit == b.starter_amount,
        b.finisher_id is Some && b.finisher_amount is Some ==> s.finisher_credit == b.finisher_amount->0,
{
}

/// What settling a market does: one settlement per matched bet and one
/// refund (the starter's stake) per open bet, in their order, with the
/// summary reported and the notice sent to the match's channels.
#[derive(Debug, Clone)]
pub struct MarketSettlement {
    pub matched: Vec<SubSettlement>,
    pub refunds: Vec<i64>,
    pub summary: String,
    pub notice: String,
}

/// Settles a market: its matched bets against the winning option, and its
/// open bets by refunding their starters.
pub fn settle_market(
    matched: &Vec<SubFixtureBet>,
    open: &Vec<SubFixtureBet>,
    winning: &Option<String>,
) -> (r: MarketSettlement)
    ensures
        r.matched@.len() == matched@.len(),
        forall|i: int| 0 <= i < matched@.len() ==> spec_sub_settle(matched@[i], winning_view(*winning), #[trigger] r.matched@[i]),
        r.refunds@.len() == open@.len(),
        forall|i: int| 0 <= i < open@.len() ==> #[trigger] r.refunds@[i] == open@[i].starter_amount,
        r.summary@ == "Settled "@ + digits(matched@.len()) + " matched bets, refunded "@ + digits(open@.len())
            + " unmatched bets"@,
        r.notice@ == "Market settled. "@ + digits(matched@.len()) + " bets settled, "@ + digits(open@.len())
            + " refunded."@,
{
    let mut out: Vec<SubSettlement> = Vec::new();
    let mut i: usize = 0;
    while i < matched.len()
        invariant
            i <= matched@.len(),
            out@.len() == i,
            forall|j: int| 0 <= j < i ==> spec_sub_settle(matched@[j], winning_view(*winning), #[trigger] out@[j]),
        decreases matched.len() - i,
    {
        out.push(settle_sub_bet(&matched[i], winning));
        i = i + 1;
    }
    let mut refunds: Vec<i64> = Vec::new();
    let mut k: usize = 0;
    while k < open.len()
        invariant
            k <= open@.len(),
            refunds@.len() == k,
            forall|j: int| 0 <= j < k ==> #[trigger] refunds@[j] == open@[j].starter_amount,
        decreases open.len() - k,
    {
        refunds.push(open[k].starter_amount);
        k = k + 1;
    }
    let n = matched.len() as u64;
    let m = open.len() as u64;
    let mut summary = String::from_str("Settled ");
    push_digits(&mut summary, n);
    summary.append(" matched bets, refunded ");
    push_digits(&mut summary, m);
    summary.append(" unmatched bets");
    let mut notice = String::from_str("Market settled. ");
    push_digits(&mut notice, n);
    notice.append(" bets settled, ");
    push_digits(&mut notice, m);
    notice.append(" refunded.");
    MarketSettlement { matched: out, refunds, summary, notice }
}

/// Everything a run of market settlements pays back.
pub open spec fn sub_credits(s: Seq<SubSettlement>) -> int
    decreases s.len(),
{
    if s.len() == 0 {
        0
    } else {
        sub_credits(s.drop_last()) + s.last().starter_credit + s.last().finisher_credit
    }
}

/// Everything staked on a run of market bets.
pub open spec fn sub_pots(b: Seq<SubFixtureBet>) -> int
    decreases b.len(),
{
    if b.len() == 0 {
        0
    } else {
        sub_pots(b.drop_last()) + b.last().total_pot
    }
}

/// Settling a whole market pays back exactly what its balanced matched bets
/// hold: the credits over all of them add up to their pots.
pub proof fn law_market_settlement_conserves_stakes(
    bets: Seq<SubFixtureBet>,
    w: Option<Seq<char>>,
    s: Seq<SubSettlement>,
)
    requires
        bets.len() == s.len(),
        forall|i: int| 0 <= i < bets.len() ==> balanced(#[trigger] bets[i]),
        forall|i: int| 0 <= i < bets.len() ==> spec_sub_settle(bets[i], w, #[trigger] s[i]),
    ensures
        sub_credits(s) == sub_pots(bets),
    decreases bets.len(),
{
    if bets.len() > 0 {
        let n = bets.len() - 1;
        assert(balanced(bets[n]));
        assert(spec_sub_settle(bets[n], w, s[n]));
        let bs = bets.drop_last();
        let ss = s.drop_last();
        assert forall|i: int| 0 <= i < bs.len() implies balanced(#[trigger] bs[i]) by {
            assert(bs[i] == bets[i]);
        }
        assert forall|i: int| 0 <= i < bs.len() implies spec_sub_settle(bs[i], w, #[trigger] ss[i]) by {
            assert(bs[i] == bets[i]);
            assert(ss[i] == s[i]);
        }
        law_market_settlement_conserves_stakes(bs, w, ss);
    }
}

/// How many bets of `b` have status `st`.
pub open spec fn count_status(b: Seq<SubFixtureBet>, st: BetStatus) -> nat
    decreases b.len(),
{
    if b.len() == 0 {
        0
    } else {
        count_status(b.drop_last(), st) + if b.last().status == st { 1nat } else { 0nat }
    }
}

/// The pots of the matched bets of `b`, added up.
pub open spec fn matched_pot(b: Seq<SubFixtureBet>) -> int
    decreases b.len(),
{
    if b.len() == 0 {
        0
    } else {
        matched_pot(b.drop_last()) + if b.last().status == BetStatus::Matched { b.last().total_pot as int } else { 0 }
    }
}

/// The figures shown with a market: its bets by status and the pot of its
/// matched bets.
#[derive(Debug, Clone, Copy, PartialEq, Eq, Structural)]
pub struct MarketStats {
    pub total_bets: u64,
    pub open_bets: u64,
    pub matched_bets: u64,
    pub settled_bets: u64,
    pub refunded_bets: u64,
    pub total_pot: i128,
}

proof fn lemma_matched_pot_bound(b: Seq<SubFixtureBet>)
    ensures
        -(b.len() * 0x8000_0000_0000_0000) <= matched_pot(b) <= b.len() * 0x8000_0000_0000_0000,
    decreases b.len(),
{
    if b.len() > 0 {
        lemma_matched_pot_bound(b.drop_last());
        let n = b.len() as int;
        assert((n - 1) * 0x8000_0000_0000_0000 + 0x8000_0000_0000_0000 == n * 0x8000_0000_0000_0000)
            by (nonlinear_arith);
    }
}

/// Counts a market's bets by status and adds up the pots of the matched
/// ones.
pub fn market_stats(bets: &Vec<SubFixtureBet>) -> (s: MarketStats)
    ensures
        s.total_bets == bets@.len(),
        s.open_bets == count_status(bets@, BetStatus::Open),
        s.matched_bets == count_status(bets@, BetStatus::Matched),
        s.settled_bets == count_status(bets@, BetStatus::Settled),
        s.refunded_bets == count_status(bets@, BetStatus::Refunded),
        s.total_pot == matched_pot(bets@),
{
    let mut st = MarketStats { total_bets: 0, open_bets: 0, matched_bets: 0, settled_bets: 0, refunded_bets: 0, total_pot: 0 };
    let mut i: usize = 0;
    while i < bets.len()
        invariant
            i <= bets@.len(),
            st.open_bets == count_status(bets@.subrange(0, i as int), BetStatus::Open),
            st.matched_bets == count_status(bets@.subrange(0, i as int), BetStatus::Matched),
            st.settled_bets == count_status(bets@.subrange(0, i as int), BetStatus::Settled),
            st.refunded_bets == count_status(bets@.subrange(0, i as int), BetStatus::Refunded),
            st.total_pot == matched_pot(bets@.subrange(0, i as int)),
            st.open_bets <= i && st.matched_bets <= i && st.settled_bets <= i && st.refunded_bets <= i,
        decreases bets.len() - i,
    {
        let ghost pre = bets@.subrange(0, i as int);
        let ghost post = bets@.subrange(0, i + 1);
        proof {
            assert(post.drop_last() =~= pre);
            lemma_matched_pot_bound(post);
            let n = post.len() as int;
            assert(n * 0x8000_0000_0000_0000 <= 0xffff_ffff_ffff_ffff * 0x8000_0000_0000_0000)
                by (nonlinear_arith)
                requires n <= 0xffff_ffff_ffff_ffff;
        }
        match bets[i].status {
            BetStatus::Open => st.open_bets = st.open_bets + 1,
            BetStatus::Matched => {
                st.matched_bets = st.matched_bets + 1;
                st.total_pot = st.total_pot + bets[i].total_pot as i128;
            },
            BetStatus::Settled => st.settled_bets = st.settled_bets + 1,
            BetStatus::Refunded => st.refunded_bets = st.refunded_bets + 1,
            BetStatus::Cancelled => {},
        }
        i = i + 1;
    }
    proof {
        assert(bets@.subrange(0, bets@.len() as int) =~= bets@);
    }
    st.total_bets = bets.len() as u64;
    st
}

/// The notice for a new market pledge: `Amina pledged KES 150 on first_goal`.
pub fn sub_pledge_notice(name: &str, amount: i64, market_type: &str) -> (s: String)
    ensures
        s@ == name@ + " pledged KES "@ + spec_amount_short(amount as int) + " on "@ + market_type@,
{
    let a = amount_short(amount);
    let mut s = concat(name, " pledged KES ");
    s.append(a.as_str());
    s.append(" on ");
    s.append(market_type);
    s
}

/// The notice for a matched market bet; a market that is no longer found is
/// called `sub-fixture`.
pub fn sub_matched_notice(name: &str, market_type: &Option<String>) -> (s: String)
    ensures
        s@ == name@ + " matched a bet on "@ + match market_type {
            Some(t) => t@,
            None => "sub-fixture"@,
        },
{
    let mut s = concat(name, " matched a bet on ");
    match market_type {
        Some(t) => s.append(t.as_str()),
        None => s.append("sub-fixture"),
    }
    s
}

/// A market bet never overdraws: from a balance that is not negative, the
/// balance left after opening or filling a market bet is not negative
/// either.
pub proof fn law_market_stakes_never_overdraw(
    create: CreateSubFixtureBetRequest,
    fill: FillSubFixtureBetRequest,
    bet_id: Seq<char>,
    by_oid: Option<String>,
    by_key: Option<String>,
    market: Option<MarketInfo>,
    bet: Option<SubFixtureBet>,
    game_status: Option<String>,
    has_active: bool,
    balance: Option<i64>,
    created: Result<SubBetCreation, AppError>,
    filled: Result<SubBetFill, AppError>,
)
    requires
        balance matches Some(b) ==> b >= 0,
        spec_sub_bet_creation(create, by_oid, by_key, market, game_status, has_active, balance, created),
        spec_sub_bet_fill(bet_id, fill, by_oid, by_key, bet, game_status, has_active, balance, filled),
    ensures
        created matches Ok(c) ==> c.new_balance >= 0,
        filled matches Ok(f) ==> f.new_balance >= 0,
{
}

/// The bet a successful fill leaves: the open bet with the finisher's id,
/// name, selection and stake, matched, with the fill's pot.
pub open spec fn filled_bet(ob: SubFixtureBet, req: FillSubFixtureBetRequest, pot: i64) -> SubFixtureBet {
    SubFixtureBet {
        finisher_id: Some(req.finisher_id),
        finisher_name: Some(req.finisher_name),
        finisher_selection: Some(req.selection),
        finisher_amount: Some(req.amount),
        status: BetStatus::Matched,
        total_pot: pot,
        ..ob
    }
}

/// A market bet that was filled settles to exactly its pot: the fill
/// leaves a balanced bet (equal stakes, the pot their sum), so whatever
/// option wins, or none, the credits of its settlement add up to the pot,
/// twice the starter's stake.
pub proof fn law_filled_market_bet_settles_to_its_pot(
    bet_id: Seq<char>,
    req: FillSubFixtureBetRequest,
    by_oid: Option<String>,
    by_key: Option<String>,
    ob: SubFixtureBet,
    game_status: Option<String>,
    has_active: bool,
    balance: Option<i64>,
    f: SubBetFill,
    w: Option<Seq<char>>,
    s: SubSettlement,
)
    requires
        spec_sub_bet_fill(bet_id, req, by_oid, by_key, Some(ob), game_status, has_active, balance, Ok(f)),
        i64::MIN <= f.total_pot <= i64::MAX,
        spec_sub_settle(filled_bet(ob, req, f.total_pot as i64), w, s),
    ensures
        s.starter_credit + s.finisher_credit == f.total_pot,
        f.total_pot == 2 * ob.starter_amount,
{
    let b = filled_bet(ob, req, f.total_pot as i64);
    assert(balanced(b));
    law_sub_settlement_pays_out_the_pot(b, w, s);
}

/// User `x` is a member (other than `actor`) of one of the channels that
/// follow a match (`channels` lists each channel's member ids).
pub open spec fn follows_match(channels: Seq<Vec<String>>, actor: Seq<char>, x: Seq<char>) -> bool {
    x != actor && exists|c: int, i: int| 0 <= c < channels.len() && 0 <= i < channels[c]@.len() && (#[trigger] channels[c]@[i])@ == x
}

/// The users an event on a match by `actor` is announced to: every member
/// of the match's channels other than the actor, each once.
pub fn match_recipients(channels: &Vec<Vec<String>>, actor: &str) -> (r: Vec<String>)
    ensures
        views(r@).no_duplicates(),
        forall|x: Seq<char>| #[trigger] views(r@).contains(x) <==> follows_match(channels@, actor@, x),
{
    let mut flat: Vec<String> = Vec::new();
    let mut c: usize = 0;
    while c < channels.len()
        invariant
            c <= channels@.len(),
            forall|x: Seq<char>| #[trigger] views(flat@).contains(x) <==> (x != actor@
                && exists|d: int, i: int| 0 <= d < c && 0 <= i < channels@[d]@.len() && (#[trigger] channels@[d]@[i])@ == x),
        decreases channels.len() - c,
    {
        let ms = &channels[c];
        let mut i: usize = 0;
        while i < ms.len()
            invariant
                c < channels@.len(),
                ms == channels@[c as int],
                i <= ms@.len(),
                forall|x: Seq<char>| #[trigger] views(flat@).contains(x) <==> (x != actor@
                    && ((exists|d: int, k: int| 0 <= d < c && 0 <= k < channels@[d]@.len() && (#[trigger] channels@[d]@[k])@ == x)
                        || (exists|k: int| 0 <= k < i && (#[trigger] ms@[k])@ == x))),
            decreases ms.len() - i,
        {
            let ghost before = views(flat@);
            if !str_eq(ms[i].as_str(), actor) {
                flat.push(ms[i].clone());
                proof {
                    assert(views(flat@) =~= before.push(ms@[i as int]@));
                    assert forall|x: Seq<char>| #[trigger] views(flat@).contains(x) <==> (x != actor@
                        && ((exists|d: int, k: int| 0 <= d < c && 0 <= k < channels@[d]@.len() && (#[trigger] channels@[d]@[k])@ == x)
                            || (exists|k: int| 0 <= k < i + 1 && (#[trigger] ms@[k])@ == x))) by {
                        if views(flat@).contains(x) {
                            let j = choose|j: int| 0 <= j < views(flat@).len() && views(flat@)[j] == x;
                            if j < before.len() {
                                assert(before.contains(x));
                            } else {
                                assert(ms@[i as int]@ == x);
                            }
                        }
                        if x != actor@ && exists|k: int| 0 <= k < i + 1 && (#[trigger] ms@[k])@ == x {
                            let k = choose|k: int| 0 <= k < i + 1 && (#[trigger] ms@[k])@ == x;
                            if k < i {
                                assert(before.contains(x));
                                let j = choose|j: int| 0 <= j < before.len() && before[j] == x;
                                assert(views(flat@)[j] == x);
                            } else {
                                assert(views(flat@)[before.len() as int] == x);
                            }
                        }
                        if x != actor@ && exists|d: int, k: int| 0 <= d < c && 0 <= k < channels@[d]@.len() && (#[trigger] channels@[d]@[k])@ == x {
                            assert(before.contains(x));
                            let j = choose|j: int| 0 <= j < before.len() && before[j] == x;
                            assert(views(flat@)[j] == x);
                        }
                    }
                }
            } else {
                proof {
                    assert forall|x: Seq<char>| #[trigger] views(flat@).contains(x) <==> (x != actor@
                        && ((exists|d: int, k: int| 0 <= d < c && 0 <= k < channels@[d]@.len() && (#[trigger] channels@[d]@[k])@ == x)
                            || (exists|k: int| 0 <= k < i + 1 && (#[trigger] ms@[k])@ == x))) by {
                        if x != actor@ && exists|k: int| 0 <= k < i + 1 && (#[trigger] ms@[k])@ == x {
                            let k = choose|k: int| 0 <= k < i + 1 && (#[trigger] ms@[k])@ == x;
                            assert(k < i);
                        }
                    }
                }
            }
            i = i + 1;
        }
        proof {
            assert forall|x: Seq<char>| #[trigger] views(flat@).contains(x) <==> (x != actor@
                && exists|d: int, k: int| 0 <= d < c + 1 && 0 <= k < channels@[d]@.len() && (#[trigger] channels@[d]@[k])@ == x) by {
                if x != actor@ && exists|d: int, k: int| 0 <= d < c + 1 && 0 <= k < channels@[d]@.len() && (#[trigger] channels@[d]@[k])@ == x {
                    let (d, k) = choose|d: int, k: int| 0 <= d < c + 1 && 0 <= k < channels@[d]@.len() && (#[trigger] channels@[d]@[k])@ == x;
                    if d == c {
                        assert(ms@[k]@ == x);
                    }
                }
            }
        }
        c = c + 1;
    }
    let r = crate::text::distinct_strings(&flat);
    proof {
        assert forall|x: Seq<char>| #[trigger] views(r@).contains(x) <==> follows_match(channels@, actor@, x) by {
            assert(views(r@).to_set().contains(x) == views(flat@).to_set().contains(x));
        }
    }
    r
}

} // verus!

verus! {

/// A market of a match, as the match's archival reads it: its key and
/// status.
#[derive(Debug, Clone)]
pub struct MarketState {
    pub market_id: String,
    pub status: String,
}

/// A market still `open`.
pub open spec fn is_open_market(m: MarketState) -> bool {
    m.status@ == "open"@
}

/// The keys of the open markets among `ms`, in order.
pub open spec fn open_market_keys(ms: Seq<MarketState>) -> Seq<Seq<char>> {
    ms.filter(|m: MarketState| is_open_market(m)).map_values(|m: MarketState| m.market_id@)
}

/// Archives a match's markets: each market still `open` is marked
/// `expired` and every other one is kept as it was. The result lists the
/// keys of the markets expired, in order; each of them is refunded
/// (`settle_market` with no winner), and their number is what the clean-up
/// reports.
pub fn expire_open_markets(markets: &mut Vec<MarketState>) -> (expired: Vec<String>)
    ensures
        final(markets)@.len() == old(markets)@.len(),
        forall|i: int| 0 <= i < old(markets)@.len() ==> (#[trigger] final(markets)@[i]).market_id@ == old(markets)@[i].market_id@
            && final(markets)@[i].status@ == (if is_open_market(old(markets)@[i]) { "expired"@ } else { old(markets)@[i].status@ }),
        views(expired@) == open_market_keys(old(markets)@),
{
    let ghost orig = markets@;
    let mut expired: Vec<String> = Vec::new();
    let mut i: usize = 0;
    proof {
        assert(orig.take(0) =~= Seq::<MarketState>::empty());
        assert(views(expired@) =~= open_market_keys(orig.take(0)));
    }
    while i < markets.len()
        invariant
            i <= markets@.len(),
            markets@.len() == orig.len(),
            forall|j: int| 0 <= j < i ==> (#[trigger] markets@[j]).market_id@ == orig[j].market_id@
                && markets@[j].status@ == (if is_open_market(orig[j]) { "expired"@ } else { orig[j].status@ }),
            forall|j: int| i <= j < markets@.len() ==> #[trigger] markets@[j] == orig[j],
            views(expired@) == open_market_keys(orig.take(i as int)),
        decreases markets.len() - i,
    {
        let ghost pre = views(expired@);
        proof {
            reveal_with_fuel(Seq::<_>::filter, 1);
            assert(orig.take(i + 1).drop_last() =~= orig.take(i as int));
            assert(orig.take(i + 1).last() == orig[i as int]);
        }
        if str_eq(markets[i].status.as_str(), "open") {
            let key = markets[i].market_id.clone();
            expired.push(key.clone());
            markets.set(i, MarketState { market_id: key, status: String::from_str("expired") });
            proof {
                assert(views(expired@) =~= pre.push(orig[i as int].market_id@));
                assert(orig.take(i + 1).filter(|m: MarketState| is_open_market(m))
                    =~= orig.take(i as int).filter(|m: MarketState| is_open_market(m)).push(orig[i as int]));
                assert(views(expired@) =~= open_market_keys(orig.take(i + 1)));
            }
        } else {
            proof {
                assert(orig.take(i + 1).filter(|m: MarketState| is_open_market(m))
                    =~= orig.take(i as int).filter(|m: MarketState| is_open_market(m)));
                assert(views(expired@) =~= open_market_keys(orig.take(i + 1)));
            }
        }
        i = i + 1;
    }
    proof {
        assert(orig.take(orig.len() as int) =~= orig);
    }
    expired
}

/// The default market types a match still lacks, given the keys of the
/// markets it already has: those whose key is not among them, in the
/// default order.
pub open spec fn missing_default_types(match_id: Seq<char>, existing: Seq<Seq<char>>) -> Seq<Seq<char>> {
    default_market_types().filter(|t: Seq<char>| !existing.contains(spec_market_id(match_id, t)))
}

/// The default markets to create for a match (key and type), given the keys
/// of the markets it already has: those of `missing_default_types`, in
/// order. Each is created open and visible, offering `default_options`
/// with no pledges; their number is what is reported as created.
pub fn missing_default_markets(match_id: &str, existing: &Vec<String>) -> (v: Vec<(String, String)>)
    ensures
        v@.map_values(|p: (String, String)| p.1@) == missing_default_types(match_id@, views(existing@)),
        forall|i: int| 0 <= i < v@.len() ==> (#[trigger] v@[i]).0@ == spec_market_id(match_id@, v@[i].1@),
{
    let all = default_markets(match_id);
    let ghost ts = default_market_types();
    let ghost p = |t: Seq<char>| !views(existing@).contains(spec_market_id(match_id@, t));
    let mut v: Vec<(String, String)> = Vec::new();
    let mut i: usize = 0;
    proof {
        assert(ts.take(0) =~= Seq::<Seq<char>>::empty());
        assert(v@.map_values(|q: (String, String)| q.1@) =~= ts.take(0).filter(p));
    }
    while i < 3
        invariant
            i <= 3,
            ts == default_market_types(),
            p == (|t: Seq<char>| !views(existing@).contains(spec_market_id(match_id@, t))),
            all@.len() == 3,
            forall|k: int| 0 <= k < 3 ==> (#[trigger] all@[k]).1@ == ts[k] && all@[k].0@ == spec_market_id(match_id@, ts[k]),
            v@.map_values(|q: (String, String)| q.1@) == ts.take(i as int).filter(p),
            forall|k: int| 0 <= k < v@.len() ==> (#[trigger] v@[k]).0@ == spec_market_id(match_id@, v@[k].1@),
        decreases 3 - i,
    {
        let ghost pre = v@.map_values(|q: (String, String)| q.1@);
        proof {
            reveal_with_fuel(Seq::<_>::filter, 1);
            assert(ts.take(i + 1).drop_last() =~= ts.take(i as int));
            assert(ts.take(i + 1).last() == ts[i as int]);
        }
        let here = crate::text::contains_str(existing, all[i].0.as_str());
        proof {
            if here {
                let j = choose|j: int| 0 <= j < existing@.len() && (#[trigger] existing@[j])@ == all@[i as int].0@;
                assert(views(existing@)[j] == all@[i as int].0@);
            } else {
                assert(!views(existing@).contains(all@[i as int].0@));
            }
        }
        if !here {
            let pair = (all[i].0.clone(), all[i].1.clone());
            v.push(pair);
            proof {
                assert(v@.map_values(|q: (String, String)| q.1@) =~= pre.push(ts[i as int]));
            }
        } else {
            proof {
                assert(v@.map_values(|q: (String, String)| q.1@) =~= pre);
            }
        }
        i = i + 1;
    }
    proof {
        assert(ts.take(3) =~= ts);
    }
    v
}

/// Creating the default markets is idempotent: once the missing ones are
/// added to a match's markets, none is missing any more, so a second call
/// creates nothing.
pub proof fn law_default_markets_idempotent(match_id: Seq<char>, existing: Seq<Seq<char>>)
    ensures
        missing_default_types(match_id,
            existing + missing_default_types(match_id, existing).map_values(|t: Seq<char>| spec_market_id(match_id, t))).len() == 0,
{
    let ts = default_market_types();
    let m = missing_default_types(match_id, existing);
    let added = existing + m.map_values(|t: Seq<char>| spec_market_id(match_id, t));
    let p = |t: Seq<char>| !existing.contains(spec_market_id(match_id, t));
    let q = |t: Seq<char>| !added.contains(spec_market_id(match_id, t));
    assert forall|k: int| 0 <= k < 3 implies !q(#[trigger] ts[k]) by {
        let key = spec_market_id(match_id, ts[k]);
        if existing.contains(key) {
            let j = choose|j: int| 0 <= j < existing.len() && existing[j] == key;
            assert(added[j] == key);
        } else {
            assert(p(ts[k]));
            ts.filter_lemma(p);
            assert(ts.filter(p).contains(ts[k])) by {
                ts.lemma_filter_contains_rev(p, ts[k]);
                assert(ts.contains(ts[k]));
            }
            let j = choose|j: int| 0 <= j < m.len() && m[j] == ts[k];
            assert(added[existing.len() + j] == key);
        }
    }
    reveal_with_fuel(Seq::<_>::filter, 4);
    assert(ts =~= seq![ts[0], ts[1], ts[2]]);
    assert(ts.filter(q) =~= Seq::<Seq<char>>::empty()) by {
        assert(!q(ts[0]));
        assert(!q(ts[1]));
        assert(!q(ts[2]));
        assert(ts.take(3) =~= ts);
        assert(ts.drop_last() =~= seq![ts[0], ts[1]]);
        assert(ts.drop_last().drop_last() =~= seq![ts[0]]);
        assert(ts.drop_last().drop_last().drop_last() =~= Seq::<Seq<char>>::empty());
    }
}

} // verus!
