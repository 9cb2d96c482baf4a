use fanclash::auth::{decide_phone_owner, decide_pin_login, decide_set_pin, PinAccount};
use fanclash::channels::{
    chat_after_message, Channel, ChannelActivity, ChannelFixtureChat, ChannelMember, FixtureInfo, FixtureLabel,
    SendMessageRequest, UnreadCount,
};
use fanclash::errors::AppError;
use fanclash::bets::{settle_fixture, MatchedBet, PartyResult, SettlementStatus};
use fanclash::posts::{media_extension, parse_i64};
use fanclash::sub_fixture::{expire_open_markets, missing_default_markets, MarketState};
use fanclash::text::distinct_strings;
use fanclash::votes::VoteCounts;

const USER: &str = "64b7f0c2a1b2c3d4e5f60718";

fn member(id: &str, msgs: i32) -> ChannelMember {
    ChannelMember {
        user_id: id.to_string(),
        username: format!("name-{}", id),
        role: "member".to_string(),
        season_points: 0,
        correct_votes: 0,
        total_votes: 0,
        msg_count: msgs,
        likes_count: 0,
        joined_at: 1_000,
        last_active_at: None,
    }
}

fn request(text: &str) -> SendMessageRequest {
    SendMessageRequest {
        user_id: "u1".to_string(),
        username: "alice".to_string(),
        text: text.to_string(),
        fixture_id: Some("f9".to_string()),
        selection: None,
        caption: None,
        image_url: None,
        is_image: false,
        video_url: None,
        is_video: false,
        reply_to_id: None,
        reply_to_text: None,
        reply_to_username: None,
        reply_to_selection: None,
    }
}

#[test]
fn a_number_held_by_another_account_is_refused() {
    let other = Some("64b7f0c2a1b2c3d4e5f60799".to_string());
    let e = decide_phone_owner(USER, &other).err().unwrap();
    assert_eq!(e.status, 409);
    assert_eq!(e.message, "Phone number is already in use by another account");
    assert!(decide_phone_owner(USER, &Some(USER.to_string())).is_ok());
    assert!(decide_phone_owner("64B7F0C2A1B2C3D4E5F60718", &Some(USER.to_string())).is_ok());
    assert!(decide_phone_owner(USER, &None).is_ok());
}

#[test]
fn another_pin_is_refused() {
    let rec = decide_set_pin(USER, "1234", "salt").ok().unwrap();
    let account = PinAccount { is_pin_enabled: true, pin_hash: Some(rec.pin_hash), pin_salt: Some(rec.pin_salt) };
    let e = decide_pin_login(&Some(account.clone()), "1235").err().unwrap();
    assert_eq!(e.status, 401);
    assert_eq!(e.message, "Invalid PIN");
    assert!(decide_pin_login(&Some(account), "1234").is_ok());
}

#[test]
fn distinct_strings_keep_first_occurrences_in_order() {
    let v: Vec<String> = vec!["b", "a", "b", "c", "a"].into_iter().map(String::from).collect();
    assert_eq!(distinct_strings(&v), vec!["b".to_string(), "a".to_string(), "c".to_string()]);
}

#[test]
fn conversion_errors_carry_their_text() {
    let detail = "x".parse::<i64>().unwrap_err().to_string();
    match AppError::integer_parsing(&detail) {
        AppError::ValidationError(m) => assert_eq!(m, format!("Integer parsing error: {}", detail)),
        _ => panic!("not a validation error"),
    }
    match AppError::number_parsing("bad") {
        AppError::ValidationError(m) => assert_eq!(m, "Number parsing error: bad"),
        _ => panic!("not a validation error"),
    }
    match AppError::json_parsing("eof") {
        AppError::ValidationError(m) => assert_eq!(m, "JSON parsing error: eof"),
        _ => panic!("not a validation error"),
    }
    match AppError::http_request_failed("timeout") {
        AppError::ExternalApi(m) => assert_eq!(m, "HTTP request failed: timeout"),
        _ => panic!("not an external-API error"),
    }
    match AppError::multipart("boundary") {
        AppError::Multipart(m) => assert_eq!(m, "boundary"),
        _ => panic!("not a multipart error"),
    }
}

#[test]
fn integers_read_as_std_reads_them() {
    for s in [
        "42", "-42", "+7", "0", "-0", "007", "9223372036854775807", "-9223372036854775808",
        "9223372036854775808", "-9223372036854775809", "", "+", "-", "1a", "a1", " 1", "1 ", "++1", "-+1",
        "99999999999999999999x", "1_000",
    ] {
        assert_eq!(parse_i64(s), s.parse::<i64>().ok(), "{}", s);
    }
    assert_eq!(parse_i64("-9223372036854775808"), Some(i64::MIN));
    assert_eq!(parse_i64("+7"), Some(7));
}

#[test]
fn archival_expires_the_open_markets() {
    let mut ms = vec![
        MarketState { market_id: "m_first_goal".to_string(), status: "open".to_string() },
        MarketState { market_id: "m_first_card".to_string(), status: "settled".to_string() },
        MarketState { market_id: "m_first_corner".to_string(), status: "open".to_string() },
    ];
    let expired = expire_open_markets(&mut ms);
    assert_eq!(expired, vec!["m_first_goal".to_string(), "m_first_corner".to_string()]);
    assert_eq!(ms[0].status, "expired");
    assert_eq!(ms[1].status, "settled");
    assert_eq!(ms[2].status, "expired");
    assert_eq!(ms[2].market_id, "m_first_corner");
    assert!(expire_open_markets(&mut ms).is_empty());
}

#[test]
fn default_markets_are_created_once() {
    let existing = vec!["m7_first_card".to_string(), "other".to_string()];
    let v = missing_default_markets("m7", &existing);
    assert_eq!(
        v,
        vec![
            ("m7_first_goal".to_string(), "first_goal".to_string()),
            ("m7_first_corner".to_string(), "first_corner".to_string()),
        ]
    );
    let mut all = existing.clone();
    all.extend(v.into_iter().map(|p| p.0));
    assert!(missing_default_markets("m7", &all).is_empty());
    assert_eq!(missing_default_markets("m8", &vec![]).len(), 3);
}

#[test]
fn a_message_counts_in_an_existing_chat() {
    let chat = ChannelFixtureChat {
        channel_id: "c1".to_string(),
        fixture_id: "f9".to_string(),
        label: FixtureLabel { match_name: "A vs B".to_string(), kickoff_time: "2025-05-01 16:00".to_string(), status: "upcoming".to_string() },
        vote_counts: VoteCounts { home: 2, away: 1, draw: 0 },
        comment_count: 4,
        pledge_count: 1,
        bet_count: 2,
        likes_count: 3,
        unread_counts: vec![UnreadCount { user_id: "u2".to_string(), count: 5 }],
        last_message: Some("old".to_string()),
        last_message_at: Some(10),
        last_sender: Some("bob".to_string()),
        added_at: 7,
    };
    let c = chat_after_message(Some(chat), "c1", "f9", &None, &vec![], &request("goal!"), 99);
    assert_eq!(c.comment_count, 5);
    assert_eq!(c.last_message, Some("goal!".to_string()));
    assert_eq!(c.last_message_at, Some(99));
    assert_eq!(c.last_sender, Some("alice".to_string()));
    assert_eq!(c.added_at, 7);
    assert_eq!(c.bet_count, 2);
    assert_eq!(c.unread_counts[0].count, 5);
    assert_eq!(c.label.match_name, "A vs B");
}

#[test]
fn a_first_message_opens_the_chat() {
    let info = Some(FixtureInfo {
        home_team: "Gor".to_string(),
        away_team: "AFC".to_string(),
        date_iso: "2025-05-01".to_string(),
        time: "16:00".to_string(),
        status: "upcoming".to_string(),
    });
    let members = vec![member("u1", 0), member("u2", 0)];
    let c = chat_after_message(None, "c1", "f9", &info, &members, &request("hi"), 50);
    assert_eq!(c.channel_id, "c1");
    assert_eq!(c.fixture_id, "f9");
    assert_eq!(c.label.match_name, "Gor vs AFC");
    assert_eq!(c.label.kickoff_time, "2025-05-01 16:00");
    assert_eq!(c.comment_count, 1);
    assert_eq!(c.pledge_count + c.bet_count + c.likes_count, 0);
    assert_eq!((c.vote_counts.home, c.vote_counts.away, c.vote_counts.draw), (0, 0, 0));
    assert_eq!(c.unread_counts.len(), 2);
    assert_eq!(c.unread_counts[1].user_id, "u2");
    assert_eq!(c.unread_counts[1].count, 0);
    assert_eq!(c.added_at, 50);
    let unnamed = chat_after_message(None, "c1", "f9", &None, &members, &request("hi"), 50);
    assert_eq!(unnamed.label.match_name, "Fixture f9");
    assert_eq!(unnamed.label.status, "live");
}

#[test]
fn a_message_counts_for_its_sender_and_the_channel() {
    let mut ch = Channel {
        channel_id: "c1".to_string(),
        name: "Fans".to_string(),
        created_by: "u1".to_string(),
        season: "2025".to_string(),
        members: vec![member("u1", 3), member("u2", 8), member("u1", 1)],
        member_count: 3,
        invite_code: "ABCDEF".to_string(),
        pending_requests: vec![],
    };
    ch.record_message("u1", 500);
    assert_eq!(ch.members[0].msg_count, 4);
    assert_eq!(ch.members[0].last_active_at, Some(500));
    assert_eq!(ch.members[1].msg_count, 8);
    assert_eq!(ch.members[2].msg_count, 1);
    assert_eq!(ch.members[2].last_active_at, None);
    ch.record_message("nobody", 600);
    assert_eq!(ch.members[0].msg_count, 4);
    let mut a = ChannelActivity { total_messages: 10, messages_this_week: 2, last_message_at: None };
    a.record_message(700);
    assert_eq!((a.total_messages, a.messages_this_week, a.last_message_at), (11, 3, Some(700)));
}

const OTHER: &str = "64b7f0c2a1b2c3d4e5f60799";

fn bet(starter: &str, s_sel: &str, finisher: &str, f_sel: &str) -> MatchedBet {
    MatchedBet {
        starter_id: starter.to_string(),
        starter_selection: s_sel.to_string(),
        starter_amount: 500,
        finisher_id: Some(finisher.to_string()),
        finisher_selection: Some(f_sel.to_string()),
        finisher_amount: Some(500),
    }
}

#[test]
fn a_fixture_settles_all_its_bets() {
    let matched = vec![bet(USER, "home", OTHER, "away"), bet(OTHER, "draw", USER, "home")];
    let open = vec![(USER.to_string(), 200), (OTHER.to_string(), 300)];
    let f = settle_fixture(&matched, &open, "home").ok().unwrap();
    assert_eq!((f.settled, f.refunded), (2, 2));
    assert_eq!(f.message, "Settled 2 bets, refunded 2 unmatched bets");
    assert_eq!(f.settlements[0].starter_credit, 1000);
    assert_eq!(f.settlements[1].finisher_credit, 1000);
    assert_eq!(f.settlements[1].starter_result, PartyResult::Lost);
    assert_eq!(f.refunds[1].starter_credit, 300);
    assert_eq!(f.refunds[0].status, SettlementStatus::Refunded);
    assert_eq!(f.refunds[0].starter_result, PartyResult::Unmatched);
    let none = settle_fixture(&vec![], &vec![], "away").ok().unwrap();
    assert_eq!(none.message, "Settled 0 bets, refunded 0 unmatched bets");
}

#[test]
fn a_fixture_settlement_stops_at_the_first_malformed_id() {
    let matched = vec![bet(USER, "home", OTHER, "away"), bet("bad-id", "away", "also-bad", "home")];
    match settle_fixture(&matched, &vec![], "home") {
        Err(AppError::InvalidObjectId(_)) => {}
        _ => panic!("expected an invalid id"),
    }
    let open = vec![(USER.to_string(), 200), ("nope".to_string(), 300)];
    match settle_fixture(&vec![bet(USER, "home", OTHER, "away")], &open, "home") {
        Err(AppError::InvalidObjectId(_)) => {}
        _ => panic!("expected an invalid id"),
    }
}

#[test]
fn plain_file_names_have_their_extension_after_the_last_dot() {
    assert_eq!(media_extension(".bashrc"), "");
    assert_eq!(media_extension("clip."), "");
    assert_eq!(media_extension("noext"), "");
    assert_eq!(media_extension(".."), "");
    assert_eq!(media_extension("..MP4"), "mp4");
    assert_eq!(media_extension("a.b.WebM"), "webm");
}
