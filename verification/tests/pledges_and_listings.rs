use fanclash::bet_queries::{bet_stats, list_bets, matches_query, recent_bets, user_bets, BetQuery, BetRecord};
use fanclash::errors::AppError;
use fanclash::pledges::{
    bettor_pair, check_stats_query, decide_balance_update, decide_bet_deletion, decide_bet_result, decide_pledge,
    decide_pledge_bet, decide_pledge_status, pledge_stats, CreatePledge, PledgeBet, PledgeBetRequest, PledgeEntry,
    PledgeStatsQuery,
};

const USER: &str = "507f1f77bcf86cd799439011";
const OTHER: &str = "507f1f77bcf86cd799439012";

fn validation(e: AppError) -> String {
    match e {
        AppError::ValidationError(m) => m,
        other => panic!("not a validation error: {:?}", other),
    }
}

fn pledge(amount: i64) -> CreatePledge {
    CreatePledge {
        username: "Ann".to_string(),
        phone: "0705306867".to_string(),
        selection: "home_team".to_string(),
        amount,
        fan: "Ann".to_string(),
        home_team: "A".to_string(),
        away_team: "B".to_string(),
        starter_id: USER.to_string(),
        fixture_id: Some("f1".to_string()),
    }
}

#[test]
fn pledges_need_funds() {
    assert_eq!(decide_pledge(&pledge(300), Some(1000)).unwrap(), 700);
    assert_eq!(decide_pledge(&pledge(1000), Some(1000)).unwrap(), 0);
    assert_eq!(
        validation(decide_pledge(&pledge(1001), Some(1000)).unwrap_err()),
        "Insufficient balance. You have KES 10.00, need KES 10.01"
    );
    assert_eq!(decide_pledge(&pledge(300), None).unwrap_err(), AppError::DocumentNotFound);
    assert_eq!(validation(decide_pledge(&pledge(0), Some(1000)).unwrap_err()), "amount must be greater than 0");
    let mut p = pledge(10);
    p.username = String::new();
    assert_eq!(decide_pledge(&p, Some(1000)).unwrap_err(), AppError::MissingRequiredField("username".to_string()));
}

#[test]
fn pledge_statistics() {
    let e = |s: &str, a: i64| PledgeEntry { selection: s.to_string(), amount: a };
    let s = pledge_stats(&vec![e("home_team", 100), e("draw", 50), e("home_team", 25), e("away_team", 5), e("other", 1)]);
    assert_eq!(s.total_pledges, 5);
    assert_eq!(s.total_amount, 181);
    assert_eq!((s.home_team, s.away_team, s.draw), (2, 1, 1));
    let empty = pledge_stats(&vec![]);
    assert_eq!((empty.total_pledges, empty.total_amount), (0, 0));
    let q = PledgeStatsQuery { home_team: None, away_team: Some("B".to_string()) };
    assert_eq!(check_stats_query(&q).unwrap_err(), AppError::MissingRequiredField("home_team".to_string()));
    let q = PledgeStatsQuery { home_team: Some("A".to_string()), away_team: None };
    assert_eq!(check_stats_query(&q).unwrap_err(), AppError::MissingRequiredField("away_team".to_string()));
}

#[test]
fn pledge_status_changes() {
    assert_eq!(validation(decide_pledge_status(USER, "lost", true).unwrap_err()), "Invalid pledge status");
    assert!(matches!(decide_pledge_status("x", "matched", true), Err(AppError::InvalidObjectId(_))));
    assert_eq!(decide_pledge_status(USER, "matched", false).unwrap_err(), AppError::DocumentNotFound);
    assert_eq!(decide_pledge_status(USER, "completed", true).unwrap(), "Pledge status updated to 'completed'");
    assert_eq!(validation(decide_balance_update(-1).unwrap_err()), "Balance cannot be negative");
    assert_eq!(decide_balance_update(25050).unwrap(), "Balance updated to ₿250.5");
    assert_eq!(decide_bet_deletion(USER, true).unwrap(), "Bet deleted successfully");
    assert_eq!(decide_bet_deletion(USER, false).unwrap_err(), AppError::DocumentNotFound);
}

fn pair_req(s_sel: &str, f_sel: &str, f_amount: Option<i64>) -> PledgeBetRequest {
    PledgeBetRequest {
        pledge_id: "p1".to_string(),
        match_id: "m1".to_string(),
        starter_id: USER.to_string(),
        starter_username: "Ann".to_string(),
        starter_selection: s_sel.to_string(),
        starter_amount: 400,
        finisher_id: OTHER.to_string(),
        finisher_username: "Bob".to_string(),
        finisher_selection: f_sel.to_string(),
        finisher_amount: f_amount,
        total_pot: 1000,
    }
}

#[test]
fn pairing_pledges() {
    assert_eq!(decide_pledge_bet(&pair_req("home_team", "away_team", Some(300)), true, true).unwrap(), 300);
    assert_eq!(decide_pledge_bet(&pair_req("home_team", "draw", None), true, true).unwrap(), 600);
    assert_eq!(
        validation(decide_pledge_bet(&pair_req("home_team", "home_team", None), true, true).unwrap_err()),
        "Starter and finisher must have opposite selections"
    );
    assert_eq!(
        validation(decide_pledge_bet(&pair_req("home", "away_team", None), true, true).unwrap_err()),
        "Invalid selection. Must be home_team, away_team or draw"
    );
    assert_eq!(
        validation(decide_pledge_bet(&pair_req("home_team", "draw", Some(0)), true, true).unwrap_err()),
        "Finisher amount must be greater than 0"
    );
    assert_eq!(decide_pledge_bet(&pair_req("home_team", "draw", None), false, true).unwrap_err(), AppError::DocumentNotFound);
    assert_eq!(
        validation(decide_pledge_bet(&pair_req("home_team", "draw", None), true, false).unwrap_err()),
        "Pledger not found for this fixture"
    );
}

#[test]
fn a_bet_is_listed_from_both_sides() {
    let req = pair_req("home_team", "away_team", Some(300));
    let (s, f) = bettor_pair(&req, 300, "b1");
    assert_eq!((s.user_id.as_str(), s.opponent_id.as_str()), (USER, OTHER));
    assert_eq!((f.user_id.as_str(), f.opponent_id.as_str()), (OTHER, USER));
    assert_eq!((s.amount, s.opponent_amount), (400, 300));
    assert_eq!((f.amount, f.opponent_amount), (300, 400));
    assert_eq!(s.selection, f.opponent_selection);
    assert_eq!(f.selection, s.opponent_selection);
    assert_eq!((s.bet_id.as_str(), f.bet_id.as_str()), ("b1", "b1"));
}

#[test]
fn bet_results() {
    let bet = PledgeBet {
        starter_id: USER.to_string(),
        starter_username: "Ann".to_string(),
        starter_selection: "home_win".to_string(),
        finisher_id: OTHER.to_string(),
        finisher_username: "Bob".to_string(),
        finisher_selection: "away_win".to_string(),
        total_pot: 700,
    };
    let r = decide_bet_result(USER, "away_win", &Some(bet.clone())).unwrap();
    assert_eq!(r.winner_id.as_deref(), Some(OTHER));
    assert_eq!(r.winner_username.as_deref(), Some("Bob"));
    assert_eq!((r.starter_payout, r.finisher_payout), (0, 700));
    assert_eq!(r.loser_id.as_deref(), Some(USER));
    let r = decide_bet_result(USER, "draw", &Some(bet.clone())).unwrap();
    assert!(r.winner_id.is_none() && r.loser_id.is_none());
    assert_eq!((r.starter_payout, r.finisher_payout), (0, 0));
    assert_eq!(validation(decide_bet_result(USER, "home", &Some(bet.clone())).unwrap_err()), "Invalid winning selection");
    assert_eq!(decide_bet_result(USER, "draw", &None).unwrap_err(), AppError::DocumentNotFound);
}

fn rec(starter: &str, finisher: &str, status: &str, home: &str, pot: i64, at: i64) -> BetRecord {
    BetRecord {
        starter_id: starter.to_string(),
        finisher_id: finisher.to_string(),
        status: status.to_string(),
        pledge_id: "p".to_string(),
        home_team: home.to_string(),
        away_team: "B".to_string(),
        total_pot: pot,
        created_at: at,
    }
}

fn no_filter() -> BetQuery {
    BetQuery { user_id: None, status: None, pledge_id: None, home_team: None, away_team: None }
}

#[test]
fn bet_listings_filter_and_show_newest_first() {
    let bets = vec![
        rec("u1", "u2", "active", "A", 100, 10),
        rec("u3", "u1", "completed", "A", 200, 30),
        rec("u3", "u4", "active", "C", 300, 20),
        rec("u1", "u4", "active", "A", 400, 30),
    ];
    assert_eq!(list_bets(&bets, &no_filter()), vec![1, 3, 2, 0]);
    let mut q = no_filter();
    q.user_id = Some("u1".to_string());
    assert_eq!(list_bets(&bets, &q), vec![1, 3, 0]);
    q.status = Some("active".to_string());
    assert_eq!(list_bets(&bets, &q), vec![3, 0]);
    assert!(matches_query(&bets[0], &q));
    assert!(!matches_query(&bets[1], &q));
    assert_eq!(user_bets(&bets, &q).unwrap(), vec![1, 3, 0]);
    assert_eq!(user_bets(&bets, &no_filter()).unwrap_err(), AppError::MissingRequiredField("user_id".to_string()));
}

#[test]
fn recent_bets_are_the_ten_newest() {
    let bets: Vec<BetRecord> = (0..12).map(|i| rec("a", "b", "active", "A", 1, (i * 7) % 12)).collect();
    let r = recent_bets(&bets);
    assert_eq!(r.len(), 10);
    let times: Vec<i64> = r.iter().map(|&i| bets[i].created_at).collect();
    assert_eq!(times, vec![11, 10, 9, 8, 7, 6, 5, 4, 3, 2]);
    assert_eq!(recent_bets(&bets[..3].to_vec()).len(), 3);
}

#[test]
fn bet_statistics_count_by_team() {
    let bets = vec![
        rec("u1", "u2", "active", "A", 100, 10),
        rec("u3", "u1", "completed", "A", 200, 30),
        rec("u3", "u4", "active", "C", 300, 20),
        rec("u1", "u4", "cancelled", "A", 400, 30),
    ];
    let s = bet_stats(&bets, &no_filter());
    assert_eq!((s.total_bets, s.active_bets, s.completed_bets, s.total_pot), (4, 2, 1, 1000));
    let mut q = no_filter();
    q.home_team = Some("A".to_string());
    q.user_id = Some("ignored".to_string());
    let s = bet_stats(&bets, &q);
    assert_eq!((s.total_bets, s.active_bets, s.completed_bets, s.total_pot), (3, 1, 1, 700));
}
