use fanclash::errors::AppError;
use fanclash::games::{
    check_game_status, CommentaryEntry, CommentaryLog, history_move_outcome, history_window, latest_commentary, live_event_change, map_players,
    parse_kickoff_utc, result_from_scores, snapshot_at_minute, stale_cleanup_message, status_change, upcoming_order,
    voter_breakdown, HistoryQuery, LatestCommentaryQuery, PlayerPayload, UpcomingFixture, HOUR_MS,
};
use fanclash::lineups::{
    bench_players, lineups_document, simplify_lineups, starting_xi, team_lineup, CoachPayload, LineupsUpdateRequest,
    RawCoach, RawLineupsData, RawPlayer, RawTeamLineup, TeamLineupPayload,
};
use fanclash::mpesa::{
    balance_after_answer, check_status_query, decide_b2c_answer, decide_b2c_request, decide_callback, decide_stk_push, decide_withdrawal,
    normalize_phone, payment_outcome, read_callback, transaction_stats, withdrawal_phone_keys, B2CPaymentRequest,
    B2CRequest, CallbackItem, CallbackReading, CallbackValue, StatusQuery, StkPushRequest,
};

const USER: &str = "507f1f77bcf86cd799439011";

fn validation(e: AppError) -> String {
    match e {
        AppError::ValidationError(m) => m,
        other => panic!("not a validation error: {:?}", other),
    }
}

fn stk(phone: &str, amount: &str, user: Option<&str>) -> StkPushRequest {
    StkPushRequest {
        phone_number: phone.to_string(),
        amount: amount.to_string(),
        account_reference: None,
        transaction_desc: None,
        user_id: user.map(|u| u.to_string()),
    }
}

#[test]
fn stk_push_checks() {
    assert_eq!(decide_stk_push(&stk("", "10", Some(USER)), true, true).unwrap_err(), "Phone number and amount are required");
    assert_eq!(decide_stk_push(&stk("0705306867", "10", None), true, true).unwrap_err(), "User ID is required");
    assert_eq!(decide_stk_push(&stk("0705306867", "10", Some("")), true, true).unwrap_err(), "User ID is required");
    assert_eq!(decide_stk_push(&stk("0705306867", "0", Some(USER)), false, true).unwrap_err(), "Amount must be greater than 0");
    assert_eq!(decide_stk_push(&stk("0705306867", "10", Some(USER)), true, false).unwrap_err(), "M-Pesa service is not available");
    assert!(decide_stk_push(&stk("0705306867", "10", Some(USER)), true, true).is_ok());
    assert_eq!(normalize_phone("+254705306867"), "705306867");
}

fn item(name: &str, json: &str, number: Option<&str>, string: Option<&str>, cents: Option<i64>) -> CallbackItem {
    CallbackItem {
        name: name.to_string(),
        value: CallbackValue {
            json_text: json.to_string(),
            number_text: number.map(|s| s.to_string()),
            string_value: string.map(|s| s.to_string()),
            amount_cents: cents,
        },
    }
}

#[test]
fn callback_metadata_is_read_item_by_item() {
    let items = vec![
        item("Amount", "100.5", Some("100.5"), None, Some(10050)),
        item("MpesaReceiptNumber", "\"QK1\"", None, Some("QK1"), None),
        item("TransactionDate", "20250501120000", Some("20250501120000"), None, None),
        item("PhoneNumber", "254705306867", Some("254705306867"), None, None),
        item("Amount", "\"oops\"", None, Some("oops"), None),
    ];
    let r = read_callback(&items);
    assert_eq!(r.receipt.as_deref(), Some("QK1"));
    assert_eq!(r.paid_cents, Some(10050));
    assert_eq!(r.transaction_date.as_deref(), Some("20250501120000"));
    assert_eq!(r.paying_phone.as_deref(), Some("254705306867"));
    let empty = read_callback(&vec![]);
    assert!(empty.receipt.is_none() && empty.paid_cents.is_none());
}

#[test]
fn callbacks_record_and_credit() {
    let reading = CallbackReading { receipt: None, paid_cents: Some(5000), transaction_date: None, paying_phone: None };
    assert_eq!(decide_callback("", "c", 0, &reading, 100, USER).unwrap_err(), "Invalid callback data");
    let failed = decide_callback("m", "c", 1032, &reading, 100, USER).unwrap();
    assert_eq!((failed.status.as_str(), failed.credit_cents), ("failed", None));
    let ok = decide_callback("m", "c", 0, &reading, 100, USER).unwrap();
    assert_eq!((ok.status.as_str(), ok.credit_cents), ("completed", Some(5000)));
    let unpaid = CallbackReading { paid_cents: None, ..reading.clone() };
    assert_eq!(decide_callback("m", "c", 0, &unpaid, 100, USER).unwrap().credit_cents, Some(100));
    assert_eq!(decide_callback("m", "c", 0, &reading, 100, "x").unwrap_err(), "Invalid user_id");
}

#[test]
fn transaction_figures() {
    let s: Vec<String> = ["completed", "failed", "pending", "completed", "cancelled"].iter().map(|s| s.to_string()).collect();
    let t = transaction_stats(&s);
    assert_eq!((t.total, t.successful, t.failed, t.pending), (5, 2, 1, 2));
    assert_eq!(payment_outcome("completed"), (true, false));
    assert_eq!(payment_outcome("failed"), (false, true));
    let q = StatusQuery { checkout_request_id: None, merchant_request_id: None };
    assert_eq!(check_status_query(&q).unwrap_err(), "checkout_request_id or merchant_request_id required");
}

fn b2c(phone: &str, amount: &str) -> B2CPaymentRequest {
    B2CPaymentRequest {
        phone_number: phone.to_string(),
        amount: amount.to_string(),
        remarks: "payout".to_string(),
        occasion: None,
        user_id: None,
        channel_id: None,
    }
}

#[test]
fn withdrawals() {
    let keys = withdrawal_phone_keys("+254705306867");
    assert_eq!(keys, ("+254705306867".to_string(), "254705306867".to_string(), "0705306867".to_string(), "705306867$".to_string()));
    assert_eq!(decide_withdrawal(&b2c("", "10"), Some(1000), Some(5000)).unwrap_err(), "Phone number and amount are required");
    assert_eq!(decide_withdrawal(&b2c("0705306867", "x"), None, Some(5000)).unwrap_err(), "Amount must be greater than 0");
    assert_eq!(decide_withdrawal(&b2c("0705306867", "10"), Some(1000), None).unwrap_err(), "User not found");
    assert_eq!(
        decide_withdrawal(&b2c("0705306867", "100.5"), Some(10050), Some(5000)).unwrap_err(),
        "Insufficient balance: have KES 50, need KES 100.5"
    );
    let left = decide_withdrawal(&b2c("0705306867", "10"), Some(1000), Some(5000)).unwrap();
    assert_eq!(left, 4000);
    // a declined payment puts the amount back
    let answer = decide_b2c_answer(&Ok(("2001".to_string(), "Wrong PIN".to_string())));
    assert_eq!(answer.unwrap_err(), "M-Pesa declined: Wrong PIN");
    let (restored, why) = balance_after_answer(left, 1000, &Ok(("2001".to_string(), "Wrong PIN".to_string())));
    assert_eq!(restored, 5000);
    assert_eq!(why.unwrap_err(), "M-Pesa declined: Wrong PIN");
    let (kept, ok) = balance_after_answer(left, 1000, &Ok(("0".to_string(), "Accepted".to_string())));
    assert_eq!(kept, 4000);
    assert!(ok.is_ok());
    assert_eq!(balance_after_answer(left, 1000, &Err("timeout".to_string())).0, 5000);
    assert!(decide_b2c_answer(&Ok(("0".to_string(), "Accepted".to_string()))).is_ok());
    assert_eq!(decide_b2c_answer(&Err("timeout".to_string())).unwrap_err(), "timeout");
}

#[test]
fn direct_b2c_commands() {
    let req = |c: &str| B2CRequest { phone_number: "0705306867".to_string(), amount: "10".to_string(), command_id: c.to_string(), remarks: "r".to_string(), occasion: None };
    let e = decide_b2c_request(&req("Gift"), true).unwrap_err();
    assert_eq!(e.0, 400);
    assert_eq!(e.1, "Invalid command_id. Must be: BusinessPayment, SalaryPayment, or PromotionPayment");
    assert_eq!(decide_b2c_request(&req("SalaryPayment"), false).unwrap_err(), (503, "M-Pesa service is not available".to_string()));
    assert!(decide_b2c_request(&req("BusinessPayment"), true).is_ok());
}

#[test]
fn game_statuses() {
    assert!(check_game_status("soon").is_ok());
    assert_eq!(
        validation(check_game_status("paused").unwrap_err()),
        "Invalid status. Must be one of: [\"upcoming\", \"soon\", \"live\", \"completed\"]"
    );
    let kickoff = 10 * HOUR_MS;
    let c = status_change("live", Some(kickoff), kickoff - 2 * HOUR_MS);
    assert_eq!((c.status.as_str(), c.is_live, c.available_for_voting), ("upcoming", false, true));
    let c = status_change("live", Some(kickoff), kickoff - HOUR_MS / 2);
    assert_eq!((c.status.as_str(), c.is_live, c.available_for_voting), ("soon", false, true));
    let c = status_change("live", Some(kickoff), kickoff);
    assert_eq!((c.status.as_str(), c.is_live, c.available_for_voting), ("live", true, false));
    let c = status_change("completed", Some(kickoff), 0);
    assert_eq!((c.status.as_str(), c.is_live, c.available_for_voting), ("completed", false, false));
    let c = status_change("live", None, 0);
    assert_eq!(c.status, "live");
}

#[test]
fn live_events() {
    let kickoff = 10 * HOUR_MS;
    let c = live_event_change("goal", Some(kickoff), kickoff + 60_000);
    assert_eq!((c.status.as_str(), c.is_live, c.available_for_voting), ("live", true, false));
    let c = live_event_change("goal", Some(kickoff), kickoff - 3 * HOUR_MS);
    assert_eq!((c.status.as_str(), c.is_live, c.available_for_voting), ("upcoming", false, true));
    let c = live_event_change("match_end", Some(kickoff), kickoff + 7_200_000);
    assert_eq!((c.status.as_str(), c.is_live, c.available_for_voting), ("completed", false, false));
    assert_eq!(result_from_scores(2, 1), "home");
    assert_eq!(result_from_scores(0, 3), "away");
    assert_eq!(result_from_scores(1, 1), "draw");
}

#[test]
fn players_default_their_lineup() {
    let p = |l: &str| PlayerPayload { name: "X".to_string(), position: "GK".to_string(), jersey_number: 1, captain: true, lineup: l.to_string(), player_id: None };
    let r = map_players(vec![p(""), p("bench")], "starting");
    assert_eq!(r[0].lineup, "starting");
    assert_eq!(r[1].lineup, "bench");
    assert!(r.iter().all(|x| x.rating.is_none() && x.jersey_number == 1 && x.captain));
}

#[test]
fn kickoffs_are_read_in_east_africa_time() {
    assert_eq!(parse_kickoff_utc("2025-05-01", "16:00"), Some(1_746_104_400));
    assert_eq!(parse_kickoff_utc("2024-02-29", "00:00"), Some(1_709_164_800 - 10_800));
    assert_eq!(parse_kickoff_utc("2025-02-30", "16:00"), None);
    assert_eq!(parse_kickoff_utc("2025-05-01", "25:00"), None);
    assert_eq!(parse_kickoff_utc("01/05/2025", "16:00"), None);
}

#[test]
fn kickoffs_before_the_earliest_instant_do_not_read() {
    assert_eq!(parse_kickoff_utc("-262143-01-01", "02:59"), None);
    assert_eq!(parse_kickoff_utc("-262143-01-01", "00:00"), None);
    assert_eq!(parse_kickoff_utc("-262143-01-01", "03:00"), Some(-8_334_601_228_800));
    assert_eq!(parse_kickoff_utc("-262143-01-02", "00:00"), Some(-8_334_601_228_800 + 86_400 - 10_800));
}

#[test]
fn upcoming_fixtures_put_finished_ones_last() {
    let f = |d: &str, t: &str| UpcomingFixture { date_iso: d.to_string(), time: t.to_string() };
    let fixtures = vec![f("2025-05-03", "16:00"), f("2025-05-01", "16:00"), f("2025-05-02", "18:00"), f("2025-04-30", "12:00")];
    // at noon UTC on 2 May, the matches of 30 April and 1 May are over
    let now = 1_746_187_200;
    assert_eq!(upcoming_order(&fixtures, now), vec![2, 0, 1, 3]);
}

#[test]
fn latest_commentary_newest_first() {
    let times = vec![5, 9, 7, 9, 1];
    assert_eq!(latest_commentary(&times, &LatestCommentaryQuery { limit: Some(3) }), vec![1, 3, 2]);
    assert_eq!(latest_commentary(&times, &LatestCommentaryQuery { limit: None }), vec![1, 3, 2, 0, 4]);
    assert_eq!(latest_commentary(&times, &LatestCommentaryQuery { limit: Some(-1) }).len(), 5);
    assert_eq!(latest_commentary(&times, &LatestCommentaryQuery { limit: Some(0) }), Vec::<usize>::new());
}

#[test]
fn history_and_snapshots() {
    assert_eq!(history_move_outcome("m1", true, false).unwrap(), "Game m1 moved to history");
    assert_eq!(history_move_outcome("m1", false, true).unwrap(), "Game m1 already moved to history");
    assert_eq!(history_move_outcome("m1", false, false).unwrap_err(), AppError::DocumentNotFound);
    assert_eq!(stale_cleanup_message(4), "Moved 4 stale games to history");
    let q = HistoryQuery { limit: None, skip: None, league: None, home_team: None, away_team: None, from_date: Some("2025-05-01".to_string()), to_date: Some("2025-05-01".to_string()) };
    let w = history_window(&q);
    assert_eq!((w.limit, w.skip), (50, 0));
    assert_eq!(w.completed_from, Some(1_746_057_600));
    assert_eq!(w.completed_to, Some(1_746_057_600 + 86_399));
    let bad = HistoryQuery { from_date: Some("May 1".to_string()), ..q.clone() };
    assert_eq!(history_window(&bad).completed_from, None);
    assert_eq!(snapshot_at_minute(&vec![10, 45, 45, 90], 45), Some(1));
    assert_eq!(snapshot_at_minute(&vec![10, 45], 46), None);
    let sel: Vec<String> = ["home_team", "draw", "home_team", "away_team", "home"].iter().map(|s| s.to_string()).collect();
    assert_eq!(voter_breakdown(&sel), (2, 1, 1));
}

fn raw(name: &str, starter: bool, captain: bool) -> RawPlayer {
    RawPlayer { name: name.to_string(), position: "MF".to_string(), jersey_number: 8, captain, lineup: starter, player_id: None }
}

fn team(formation: &str, coach: &str) -> RawTeamLineup {
    RawTeamLineup {
        formation: formation.to_string(),
        players: vec![raw("A", true, true), raw("B", false, false), raw("C", true, false)],
        bench: vec![raw("D", true, true)],
        coach: RawCoach { name: coach.to_string(), country: None },
    }
}

#[test]
fn lineups_keep_starters_and_bench() {
    let xi = starting_xi(&team("4-4-2", "X").players);
    let names: Vec<&str> = xi.iter().map(|p| p.name.as_str()).collect();
    assert_eq!(names, vec!["A", "C"]);
    let bench = bench_players(&team("4-4-2", "X").bench);
    assert!(!bench[0].captain && !bench[0].lineup);
    let update = LineupsUpdateRequest {
        fixture_id: "f7".to_string(),
        lineups: RawLineupsData { home: team("4-3-3", "Coach H"), away: team("3-5-2", "Coach A") },
        timestamp: "t".to_string(),
    };
    let d = lineups_document(&update, &Some("Gor".to_string()), &None);
    assert_eq!((d.id.as_str(), d.match_id.as_str()), ("lineup_f7", "f7"));
    assert_eq!((d.home_team.as_str(), d.away_team.as_str()), ("Gor", "Unknown"));
    assert_eq!((d.home_formation.as_str(), d.away_coach.as_str()), ("4-3-3", "Coach A"));
    assert_eq!((d.home_starting_xi.len(), d.away_bench.len()), (2, 1));
    let s = simplify_lineups(&d);
    assert_eq!(s.home_starting_xi[0].name, "A");
    assert_eq!(s.home_starting_xi[0].number, 8);
    assert!(s.home_starting_xi[0].captain);
}

#[test]
fn embedded_team_lineups() {
    let p = |l: &str| PlayerPayload { name: "X".to_string(), position: "DF".to_string(), jersey_number: 4, captain: false, lineup: l.to_string(), player_id: Some("p4".to_string()) };
    let t = TeamLineupPayload { formation: "4-2-3-1".to_string(), coach: CoachPayload { name: "K".to_string() }, players: vec![p("")], bench: vec![p(""), p("starting")] };
    let r = team_lineup(&t);
    assert_eq!((r.formation.as_str(), r.coach.as_str()), ("4-2-3-1", "K"));
    assert_eq!(r.players[0].lineup, "starting");
    assert_eq!(r.bench[0].lineup, "bench");
    assert_eq!(r.bench[1].lineup, "starting");
}

#[test]
fn commentary_counts_follow_the_lines() {
    let line = |b: &str| CommentaryEntry { body: b.to_string(), created_at: 0 };
    let mut log = CommentaryLog { entries: vec![], count: 0, last_at: None };
    log.add_entry(&line("kick off"), 100);
    assert_eq!((log.count, log.last_at, log.entries[0].created_at), (1, Some(100), 100));
    let n = log.add_entries(&vec![line("goal"), line("card")], &vec![110, 111], 112);
    assert_eq!(n, 2);
    assert_eq!((log.count as usize, log.entries.len()), (3, 3));
    assert_eq!((log.entries[2].body.as_str(), log.entries[2].created_at, log.last_at), ("card", 111, Some(112)));
    assert_eq!(log.add_entries(&vec![], &vec![], 500), 0);
    assert_eq!((log.count, log.last_at), (3, Some(112)));
}
