use fanclash::bets::{
    channel_bettors, settle_matched_bet_in_channel_checked, refund_open_bet, refund_open_bet_checked, settle_matched_bet, settle_matched_bet_checked,
    settle_matched_bet_in_channel, settlement_summary, MatchedBet, PartyResult, SettlementNote, SettlementStatus,
};
use fanclash::errors::AppError;
use fanclash::votes::{
    calculate_points, decide_channel_rollback, decide_channel_vote, decide_rollback, decide_vote, display_selection,
    finalize_source, finalize_vote, mark_vote, member_votes, vote_field, vote_field_lenient, vote_field_path,
    CastVoteRequest, MemberStats, VoteCounts, VoteField, VoteRecord,
};
use fanclash::wagers::{
    bet_matched_notice, decide_bet_fill, decide_bet_placement, decide_channel_bet_fill,
    decide_channel_bet_placement, decide_pledge_with_vote, kes_shortfall_message, pledge_notice,
    shortfall_message, BetFill, BetPlacement, CreateBetRequest, CreatePledgeAndVoteRequest, FillBetRequest, OpenBet,
};

const USER: &str = "507f1f77bcf86cd799439011";
const OTHER: &str = "507f1f77bcf86cd799439012";
const BET: &str = "65a1b2c3d4e5f60718293a4b";

fn validation(e: AppError) -> String {
    match e {
        AppError::ValidationError(m) => m,
        other => panic!("not a validation error: {:?}", other),
    }
}

#[test]
fn selections_name_counters() {
    assert_eq!(vote_field("home"), Some(VoteField::Home));
    assert_eq!(vote_field("away"), Some(VoteField::Away));
    assert_eq!(vote_field("draw"), Some(VoteField::Draw));
    assert_eq!(vote_field("home_team"), None);
    assert_eq!(vote_field_lenient("home_team"), Some(VoteField::Home));
    assert_eq!(vote_field_lenient("away_team"), Some(VoteField::Away));
    assert_eq!(vote_field_lenient("x"), None);
    assert_eq!(vote_field_path(VoteField::Draw), "vote_counts.draw");
    assert_eq!(display_selection("home"), "home_team");
    assert_eq!(display_selection("away"), "away_team");
    assert_eq!(display_selection("draw"), "draw");
    assert_eq!(display_selection("other"), "other");
}

#[test]
fn a_rollback_undoes_a_vote() {
    let mut c = VoteCounts { home: 4, away: 2, draw: 1 };
    let before = c;
    c.record(VoteField::Away);
    assert_eq!(c, VoteCounts { home: 4, away: 3, draw: 1 });
    assert_eq!(c.total(), 8);
    c.unrecord(VoteField::Away);
    assert_eq!(c, before);
    assert_eq!(VoteCounts::zero().total(), 0);
}

#[test]
fn points_reward_correct_calls() {
    assert_eq!(calculate_points("home", "home"), 3);
    assert_eq!(calculate_points("draw", "draw"), 3);
    assert_eq!(calculate_points("draw", "home"), -1);
    assert_eq!(calculate_points("away", "draw"), -1);
    assert_eq!(calculate_points("home", "away"), -3);
    assert_eq!(finalize_vote("away", "away"), (true, 3));
    assert_eq!(finalize_vote("home", "draw"), (false, -1));
}

#[test]
fn settled_votes_are_marked_once() {
    let v = VoteRecord { user_id: USER.to_string(), selection: "home".to_string(), is_correct: None, points_awarded: None };
    assert_eq!(mark_vote(&v, "home"), (Some(true), Some(1)));
    assert_eq!(mark_vote(&v, "away"), (Some(false), Some(0)));
    let marked = VoteRecord { is_correct: Some(false), points_awarded: Some(7), ..v.clone() };
    assert_eq!(mark_vote(&marked, "home"), (Some(false), Some(7)));
}

#[test]
fn member_votes_keep_order() {
    let v = |u: &str, s: &str| VoteRecord { user_id: u.to_string(), selection: s.to_string(), is_correct: None, points_awarded: None };
    let votes = vec![v("a", "home"), v("b", "away"), v("c", "draw"), v("a", "draw")];
    let members = vec!["a".to_string(), "c".to_string()];
    let r = member_votes(&votes, &members);
    let got: Vec<(String, String)> = r.iter().map(|x| (x.user_id.clone(), x.selection.clone())).collect();
    assert_eq!(got, vec![
        ("a".to_string(), "home".to_string()),
        ("c".to_string(), "draw".to_string()),
        ("a".to_string(), "draw".to_string()),
    ]);
}

fn vote_req(sel: &str) -> CastVoteRequest {
    CastVoteRequest {
        fixture_id: "f1".to_string(),
        user_id: USER.to_string(),
        username: "fan".to_string(),
        selection: sel.to_string(),
        channel_id: None,
    }
}

#[test]
fn votes_are_cast_once() {
    let r = decide_vote(&vote_req("home"), true);
    assert!(r.stored_selection.is_none());
    assert_eq!(validation(r.result.unwrap_err()), "Already voted on this fixture");
    let r = decide_vote(&vote_req("home"), false);
    assert_eq!(r.stored_selection.as_deref(), Some("home"));
    assert_eq!(r.result.unwrap(), VoteField::Home);
    let r = decide_vote(&vote_req("sideways"), false);
    assert_eq!(r.stored_selection.as_deref(), Some("sideways"));
    assert_eq!(validation(r.result.unwrap_err()), "Invalid selection. Must be 'home', 'away', or 'draw'");
}

#[test]
fn channel_votes() {
    let r = decide_channel_vote(&vote_req("away"), false, true);
    assert_eq!(r.stored_selection.as_deref(), Some("away_team"));
    assert_eq!(r.result.unwrap(), VoteField::Away);
    let r = decide_channel_vote(&vote_req("away"), false, false);
    assert_eq!(r.result.unwrap_err(), AppError::DocumentNotFound);
    let mut bad = vote_req("away");
    bad.user_id = "x".to_string();
    assert!(matches!(decide_channel_vote(&bad, false, true).result, Err(AppError::InvalidObjectId(_))));
    assert_eq!(validation(decide_channel_vote(&vote_req("up"), false, true).result.unwrap_err()), "Invalid selection");
}

#[test]
fn rollbacks() {
    let r = decide_rollback(&None);
    assert!(!r.deleted);
    assert_eq!(validation(r.result.unwrap_err()), "User has not voted on this fixture");
    let r = decide_rollback(&Some("draw".to_string()));
    assert!(r.deleted);
    assert_eq!(r.field, Some(VoteField::Draw));
    let r = decide_rollback(&Some("home_team".to_string()));
    assert!(r.deleted);
    assert_eq!(validation(r.result.unwrap_err()), "Invalid selection in vote record");
    let r = decide_channel_rollback(USER, &Some("home_team".to_string()));
    assert_eq!(r.field, Some(VoteField::Home));
    assert!(r.result.is_ok());
    assert_eq!(decide_channel_rollback(USER, &None).result.unwrap_err(), AppError::DocumentNotFound);
    assert!(matches!(decide_channel_rollback("bad", &Some("draw".to_string())).result, Err(AppError::InvalidObjectId(_))));
}

#[test]
fn member_stats_follow_votes() {
    let mut s = MemberStats { season_points: 10, correct_votes: 3, total_votes: 5 };
    s.record_settled_vote(true);
    assert_eq!(s, MemberStats { season_points: 11, correct_votes: 4, total_votes: 6 });
    s.record_settled_vote(false);
    assert_eq!(s, MemberStats { season_points: 11, correct_votes: 4, total_votes: 7 });
    s.record_finalized_vote(false, -3);
    assert_eq!(s, MemberStats { season_points: 8, correct_votes: 4, total_votes: 7 });
    assert_eq!(finalize_source(true, false), "fixtures");
}

fn matched(s_sel: &str, f_sel: &str) -> MatchedBet {
    MatchedBet {
        starter_id: USER.to_string(),
        starter_selection: s_sel.to_string(),
        starter_amount: 500,
        finisher_id: Some(OTHER.to_string()),
        finisher_selection: Some(f_sel.to_string()),
        finisher_amount: Some(300),
    }
}

#[test]
fn the_sole_right_caller_takes_the_pot() {
    let s = settle_matched_bet(&matched("home", "away"), "home");
    assert_eq!(s.status, SettlementStatus::Settled);
    assert_eq!(s.winner_id.as_deref(), Some(USER));
    assert_eq!((s.starter_result, s.finisher_result), (PartyResult::Won, Some(PartyResult::Lost)));
    assert_eq!((s.starter_credit, s.finisher_credit), (800, 0));
    let s = settle_matched_bet(&matched("home", "away"), "away");
    assert_eq!(s.winner_id.as_deref(), Some(OTHER));
    assert_eq!((s.starter_credit, s.finisher_credit), (0, 800));
}

#[test]
fn nobody_or_everybody_right_is_a_refund() {
    let s = settle_matched_bet(&matched("home", "away"), "draw");
    assert_eq!(s.status, SettlementStatus::Refunded);
    assert_eq!((s.starter_credit, s.finisher_credit), (500, 300));
    let s = settle_matched_bet(&matched("home", "home"), "home");
    assert_eq!((s.starter_credit, s.finisher_credit), (500, 300));
    let s = settle_matched_bet(&matched("home", "away"), "abandoned");
    assert_eq!(s.status, SettlementStatus::Refunded);
}

#[test]
fn settling_a_fixture_pays_back_what_was_staked() {
    let bets = vec![matched("home", "away"), matched("draw", "home"), matched("away", "away")];
    let staked: i64 = 3 * 800;
    for r in ["home", "away", "draw", "nothing"] {
        let paid: i64 = bets.iter().map(|b| {
            let s = settle_matched_bet(b, r);
            s.starter_credit + s.finisher_credit
        }).sum();
        assert_eq!(paid, staked);
    }
}

#[test]
fn open_bets_are_refunded() {
    let s = refund_open_bet(700);
    assert_eq!(s.status, SettlementStatus::Refunded);
    assert_eq!(s.starter_result, PartyResult::Unmatched);
    assert_eq!((s.starter_credit, s.finisher_credit), (700, 0));
    assert!(refund_open_bet_checked(USER, 700).is_ok());
    assert!(matches!(refund_open_bet_checked("x", 700), Err(AppError::InvalidObjectId(_))));
}

#[test]
fn channel_settlement_notes() {
    let (s, n) = settle_matched_bet_in_channel(&matched("home", "home"), "home");
    assert_eq!(n, SettlementNote::DrawRefund);
    assert_eq!((s.starter_credit, s.finisher_credit), (500, 300));
    let (s, n) = settle_matched_bet_in_channel(&matched("home", "away"), "away");
    assert_eq!(n, SettlementNote::Payout);
    assert_eq!((s.starter_credit, s.finisher_credit), (0, 800));
    let (s, n) = settle_matched_bet_in_channel(&matched("home", "away"), "draw");
    assert_eq!(n, SettlementNote::HouseWins);
    assert_eq!(s.status, SettlementStatus::Settled);
    assert_eq!((s.starter_credit, s.finisher_credit), (0, 0));
}

#[test]
fn checked_settlement_refuses_malformed_ids() {
    let mut b = matched("home", "away");
    assert!(settle_matched_bet_checked(&b, "home").is_ok());
    b.starter_id = "nope".to_string();
    assert!(matches!(settle_matched_bet_checked(&b, "home"), Err(AppError::InvalidObjectId(_))));
    // only the credited side's id is read: the loser's id is not checked
    assert!(settle_matched_bet_checked(&b, "away").is_ok());
    assert_eq!(settlement_summary(3, 2), "Settled 3 bets, refunded 2 unmatched bets");
}

#[test]
fn shortfall_messages() {
    assert_eq!(shortfall_message(5000, 12050), "Insufficient balance. You have 50, need 120.5");
    assert_eq!(kes_shortfall_message(5000, 12050), "Insufficient balance. You have KES 50.00, need KES 120.50");
    assert_eq!(pledge_notice("Ann", 1250), "Ann pledged KES 12.50");
    assert_eq!(bet_matched_notice("Bob", "Ann"), "Bob matched a bet with Ann");
}

fn bet_req(amount: i64, sel: &str) -> CreateBetRequest {
    CreateBetRequest {
        starter_id: USER.to_string(),
        starter_name: "Ann".to_string(),
        starter_selection: sel.to_string(),
        amount,
        fixture_id: "f1".to_string(),
        vote_id: "v1".to_string(),
        channel_id: None,
    }
}

#[test]
fn opening_bets() {
    assert_eq!(validation(decide_bet_placement(&bet_req(0, "home"), false, Some(100)).unwrap_err()), "Amount must be greater than 0");
    let mut bad = bet_req(10, "home");
    bad.starter_id = "x".to_string();
    assert!(matches!(decide_bet_placement(&bad, false, Some(100)), Err(AppError::InvalidObjectId(_))));
    assert_eq!(decide_bet_placement(&bet_req(10, "home"), false, None).unwrap_err(), AppError::DocumentNotFound);
    assert_eq!(validation(decide_bet_placement(&bet_req(200, "home"), false, Some(100)).unwrap_err()), "Insufficient balance. You have 1, need 2");
    assert_eq!(validation(decide_bet_placement(&bet_req(10, "up"), false, Some(100)).unwrap_err()), "Invalid selection");
    assert_eq!(decide_bet_placement(&bet_req(10, "up"), true, Some(100)).unwrap(), BetPlacement { auto_vote: None, new_balance: 90 });
    assert_eq!(decide_bet_placement(&bet_req(100, "draw"), false, Some(100)).unwrap(), BetPlacement { auto_vote: Some(VoteField::Draw), new_balance: 0 });
}

fn fill_req(finisher: &str, amount: i64) -> FillBetRequest {
    FillBetRequest {
        bet_id: BET.to_string(),
        finisher_id: finisher.to_string(),
        finisher_name: "Bob".to_string(),
        finisher_selection: "away".to_string(),
        amount,
        channel_id: None,
    }
}

fn open_bet() -> Option<OpenBet> {
    Some(OpenBet { fixture_id: "f1".to_string(), starter_id: USER.to_string(), starter_name: "Ann".to_string(), starter_amount: 400 })
}

#[test]
fn filling_bets() {
    assert_eq!(validation(decide_bet_fill(&fill_req(OTHER, 100), &None, Some(1000), false).unwrap_err()), "Bet not found or already filled");
    assert_eq!(validation(decide_bet_fill(&fill_req(USER, 100), &open_bet(), Some(1000), false).unwrap_err()), "Cannot fill your own bet");
    assert_eq!(decide_bet_fill(&fill_req(OTHER, 100), &open_bet(), None, false).unwrap_err(), AppError::DocumentNotFound);
    assert_eq!(
        decide_bet_fill(&fill_req(OTHER, 100), &open_bet(), Some(1000), false).unwrap(),
        BetFill { auto_vote: Some(VoteField::Away), new_balance: 900, total_pot: 500 }
    );
    assert_eq!(
        decide_channel_bet_fill(&fill_req(OTHER, 100), &open_bet(), Some(1000), true).unwrap(),
        BetFill { auto_vote: None, new_balance: 900, total_pot: 500 }
    );
    assert_eq!(
        validation(decide_channel_bet_fill(&fill_req(OTHER, 100), &open_bet(), Some(1000), false).unwrap_err()),
        "Finisher must vote on this fixture first"
    );
}

#[test]
fn channel_bets_need_a_vote() {
    assert_eq!(decide_channel_bet_placement(&bet_req(100, "home"), Some(1000), true).unwrap(), 900);
    assert_eq!(validation(decide_channel_bet_placement(&bet_req(100, "home"), Some(1000), false).unwrap_err()), "Vote not found for this fixture");
    assert_eq!(
        validation(decide_channel_bet_placement(&bet_req(100, "home"), Some(50), true).unwrap_err()),
        "Insufficient balance. You have KES 0.50, need KES 1.00"
    );
}

#[test]
fn pledges_with_votes() {
    let req = CreatePledgeAndVoteRequest {
        username: "Ann".to_string(),
        phone: "0705306867".to_string(),
        selection: "home".to_string(),
        amount: 250,
        fan: "Ann".to_string(),
        home_team: "A".to_string(),
        away_team: "B".to_string(),
        starter_id: USER.to_string(),
        fixture_id: "f1".to_string(),
        channel_id: None,
    };
    let p = decide_pledge_with_vote(&req, Some(1000), false).unwrap();
    assert_eq!(p.stored_selection, "home_team");
    assert_eq!(p.auto_vote, Some(VoteField::Home));
    assert_eq!(p.new_balance, 750);
    assert_eq!(decide_pledge_with_vote(&req, Some(1000), true).unwrap().auto_vote, None);
    let mut r2 = req.clone();
    r2.phone = String::new();
    assert_eq!(decide_pledge_with_vote(&r2, Some(1000), false).unwrap_err(), AppError::MissingRequiredField("phone".to_string()));
    let mut r3 = req.clone();
    r3.starter_id = "zz".to_string();
    assert_eq!(validation(decide_pledge_with_vote(&r3, Some(1000), false).unwrap_err()), "Invalid starter_id format");
    let mut r4 = req.clone();
    r4.amount = 0;
    assert_eq!(validation(decide_pledge_with_vote(&r4, Some(1000), false).unwrap_err()), "amount must be greater than 0");
}

#[test]
fn a_channel_shows_bets_between_its_members() {
    let mut open = matched("home", "away");
    open.finisher_id = None;
    let mut outsider = matched("home", "away");
    outsider.finisher_id = Some("65a1b2c3d4e5f60718293a4b".to_string());
    let bets = vec![matched("home", "away"), open, outsider, matched("draw", "home")];
    let members = vec![OTHER.to_string(), USER.to_string()];
    assert_eq!(channel_bettors(&bets, &members), vec![0, 3]);
    assert!(channel_bettors(&bets, &vec![USER.to_string()]).is_empty());
}

#[test]
fn channel_settlement_reads_only_the_ids_it_credits() {
    let mut b = matched("home", "away");
    b.starter_id = "nope".to_string();
    let (s, n, r) = settle_matched_bet_in_channel_checked(&b, "away");
    assert_eq!(n, SettlementNote::Payout);
    assert_eq!(s.finisher_credit, 800);
    assert!(r.is_ok());
    let (s, n, r) = settle_matched_bet_in_channel_checked(&b, "home");
    assert_eq!((n, s.starter_credit), (SettlementNote::Payout, 800));
    assert!(matches!(r, Err(AppError::InvalidObjectId(_))));
    let (_, n, r) = settle_matched_bet_in_channel_checked(&b, "draw");
    assert_eq!(n, SettlementNote::HouseWins);
    assert!(r.is_ok());
}

#[test]
fn a_filled_bet_settles_to_the_pot_it_recorded() {
    let ob = open_bet().unwrap();
    let req = fill_req(OTHER, 250);
    let fill = decide_bet_fill(&req, &Some(ob.clone()), Some(1000), true).unwrap();
    let b = MatchedBet {
        starter_id: ob.starter_id.clone(),
        starter_selection: "home".to_string(),
        starter_amount: ob.starter_amount,
        finisher_id: Some(req.finisher_id.clone()),
        finisher_selection: Some(req.finisher_selection.clone()),
        finisher_amount: Some(req.amount),
    };
    for r in ["home", "away", "draw", "void"] {
        let s = settle_matched_bet(&b, r);
        assert_eq!((s.starter_credit + s.finisher_credit) as i128, fill.total_pot);
    }
}
