use fanclash::comments::{
    check_comment_found, comment_notices, comment_page, comment_sort, decide_comment, decide_comment_deletion,
    decide_comment_edit, CommentSort, CreateCommentRequest, UpdateCommentRequest,
};
use fanclash::comrades::{available_users, comrade_stats, decide_add_comrade, AddComradeRequest, ComradeBook, MAX_COMRADES};
use fanclash::errors::AppError;
use fanclash::likes::{decide_toggle_like, like_count_body, like_message, post_like_title, LikeState, LikeToggle};
use fanclash::sub_fixture::{
    match_recipients, check_market_request, decide_sub_bet_creation, decide_sub_bet_fill, default_markets, default_options,
    market_id_for, market_stats, resolve_market_id, settle_market, settle_sub_bet, sub_matched_notice,
    sub_pledge_notice, tally_keys, BetStatus, CreateSubFixtureBetRequest, CreateSubFixtureMarketRequest,
    FillSubFixtureBetRequest, MarketInfo, SubFixtureBet, SubSettlement,
};

const USER: &str = "507f1f77bcf86cd799439011";
const OTHER: &str = "507f1f77bcf86cd799439012";
const POST: &str = "65a1b2c3d4e5f60718293a4b";

fn validation(e: AppError) -> String {
    match e {
        AppError::ValidationError(m) => m,
        other => panic!("not a validation error: {:?}", other),
    }
}

#[test]
fn markets_are_keyed_by_match_and_type() {
    assert_eq!(market_id_for("m42", "first_goal"), "m42_first_goal");
    let d = default_markets("m1");
    let types: Vec<&str> = d.iter().map(|(_, t)| t.as_str()).collect();
    assert_eq!(types, vec!["first_goal", "first_card", "first_corner"]);
    assert_eq!(d[1].0, "m1_first_card");
    assert_eq!(default_options(), vec!["home".to_string(), "away".to_string()]);
    let keys = tally_keys(&vec!["a".to_string(), "b".to_string(), "a".to_string()]);
    assert_eq!(keys, vec!["a".to_string(), "b".to_string()]);
    let req = CreateSubFixtureMarketRequest { match_id: "m1".to_string(), market_type: "t".to_string(), options: vec![] };
    assert_eq!(validation(check_market_request(&req).unwrap_err()), "options must not be empty");
}

#[test]
fn market_references_resolve() {
    assert_eq!(validation(resolve_market_id("", &None, &None).unwrap_err()), "market_id is required");
    assert_eq!(resolve_market_id("m1_first_goal", &None, &Some("m1_first_goal".to_string())).unwrap(), "m1_first_goal");
    assert_eq!(resolve_market_id(POST, &Some("m9_first_card".to_string()), &None).unwrap(), "m9_first_card");
    assert_eq!(resolve_market_id("m1_none", &None, &None).unwrap_err(), AppError::DocumentNotFound);
}

fn open_market() -> Option<MarketInfo> {
    Some(MarketInfo { market_type: "first_goal".to_string(), status: "open".to_string() })
}

fn create_req(amount: i64) -> CreateSubFixtureBetRequest {
    CreateSubFixtureBetRequest {
        match_id: "m1".to_string(),
        market_id: "m1_first_goal".to_string(),
        starter_id: USER.to_string(),
        starter_name: "Ann".to_string(),
        selection: "home".to_string(),
        amount,
    }
}

#[test]
fn opening_market_bets() {
    let key = Some("m1_first_goal".to_string());
    let up = Some("upcoming".to_string());
    let c = decide_sub_bet_creation(&create_req(25050), &None, &key, &open_market(), &up, false, Some(100000)).unwrap();
    assert_eq!(c.market_id, "m1_first_goal");
    assert_eq!(c.new_balance, 74950);
    assert_eq!(c.count_key, "pledgeCounts.home");
    assert_eq!(c.total_key, "pledgeTotals.home");
    assert_eq!(c.total_increment, 250);
    let closed = Some(MarketInfo { market_type: "first_goal".to_string(), status: "settled".to_string() });
    assert_eq!(
        validation(decide_sub_bet_creation(&create_req(100), &None, &key, &closed, &up, false, Some(1000)).unwrap_err()),
        "Market is not open (status: settled)"
    );
    let live = Some("live".to_string());
    assert_eq!(
        validation(decide_sub_bet_creation(&create_req(100), &None, &key, &open_market(), &live, false, Some(1000)).unwrap_err()),
        "Match is no longer accepting bets"
    );
    assert_eq!(
        validation(decide_sub_bet_creation(&create_req(100), &None, &key, &open_market(), &up, true, Some(1000)).unwrap_err()),
        "You already have an active bet on this market"
    );
    assert_eq!(
        validation(decide_sub_bet_creation(&create_req(0), &None, &key, &open_market(), &up, false, Some(1000)).unwrap_err()),
        "Amount must be greater than 0"
    );
    assert_eq!(
        decide_sub_bet_creation(&create_req(100), &None, &None, &open_market(), &up, false, Some(1000)).unwrap_err(),
        AppError::DocumentNotFound
    );
}

fn open_bet(amount: i64) -> SubFixtureBet {
    SubFixtureBet {
        match_id: "m1".to_string(),
        market_id: "m1_first_goal".to_string(),
        starter_id: USER.to_string(),
        starter_name: "Ann".to_string(),
        starter_selection: "home".to_string(),
        starter_amount: amount,
        finisher_id: None,
        finisher_name: None,
        finisher_selection: None,
        finisher_amount: None,
        status: BetStatus::Open,
        total_pot: amount,
    }
}

fn fill_req(finisher: &str, sel: &str, amount: i64) -> FillSubFixtureBetRequest {
    FillSubFixtureBetRequest {
        match_id: "m1".to_string(),
        market_id: "m1_first_goal".to_string(),
        finisher_id: finisher.to_string(),
        finisher_name: "Bob".to_string(),
        selection: sel.to_string(),
        amount,
    }
}

#[test]
fn filling_market_bets() {
    let key = Some("m1_first_goal".to_string());
    let up = Some("not_started".to_string());
    let ob = Some(open_bet(500));
    let f = decide_sub_bet_fill(POST, &fill_req(OTHER, "away", 500), &None, &key, &ob, &up, false, Some(2000)).unwrap();
    assert_eq!((f.new_balance, f.total_pot), (1500, 1000));
    assert_eq!(
        validation(decide_sub_bet_fill(POST, &fill_req(OTHER, "home", 500), &None, &key, &ob, &up, false, Some(2000)).unwrap_err()),
        "Cannot pick the same side as the starter"
    );
    assert_eq!(
        validation(decide_sub_bet_fill(POST, &fill_req(OTHER, "away", 450), &None, &key, &ob, &up, false, Some(2000)).unwrap_err()),
        "Amount must exactly match starter's stake of 5"
    );
    assert_eq!(
        validation(decide_sub_bet_fill(POST, &fill_req(USER, "away", 500), &None, &key, &ob, &up, false, Some(2000)).unwrap_err()),
        "Cannot fill your own bet"
    );
    assert_eq!(
        validation(decide_sub_bet_fill(POST, &fill_req(OTHER, "away", 500), &None, &key, &None, &up, false, Some(2000)).unwrap_err()),
        "Open bet not found"
    );
    assert!(matches!(
        decide_sub_bet_fill("bad", &fill_req(OTHER, "away", 500), &None, &key, &ob, &up, false, Some(2000)),
        Err(AppError::InvalidObjectId(_))
    ));
    assert_eq!(
        validation(decide_sub_bet_fill(POST, &fill_req(OTHER, "away", 500), &None, &key, &ob, &up, false, Some(100)).unwrap_err()),
        "Insufficient balance. You have 1, need 5"
    );
}

fn matched_bet() -> SubFixtureBet {
    SubFixtureBet {
        finisher_id: Some(OTHER.to_string()),
        finisher_name: Some("Bob".to_string()),
        finisher_selection: Some("away".to_string()),
        finisher_amount: Some(500),
        status: BetStatus::Matched,
        total_pot: 1000,
        ..open_bet(500)
    }
}

#[test]
fn market_settlement_pays_the_pot_to_the_winner() {
    let b = matched_bet();
    assert_eq!(settle_sub_bet(&b, &Some("home".to_string())), SubSettlement { status: BetStatus::Settled, starter_credit: 1000, finisher_credit: 0 });
    assert_eq!(settle_sub_bet(&b, &Some("away".to_string())), SubSettlement { status: BetStatus::Settled, starter_credit: 0, finisher_credit: 1000 });
    assert_eq!(settle_sub_bet(&b, &None), SubSettlement { status: BetStatus::Refunded, starter_credit: 500, finisher_credit: 500 });
    assert_eq!(settle_sub_bet(&b, &Some("neither".to_string())), SubSettlement { status: BetStatus::Refunded, starter_credit: 500, finisher_credit: 500 });
}

#[test]
fn a_settled_market_pays_back_what_it_holds() {
    let matched = vec![matched_bet(), matched_bet()];
    let open = vec![open_bet(300)];
    let r = settle_market(&matched, &open, &Some("away".to_string()));
    let paid: i64 = r.matched.iter().map(|s| s.starter_credit + s.finisher_credit).sum();
    assert_eq!(paid, 2000);
    assert_eq!(r.refunds, vec![300]);
    assert_eq!(r.summary, "Settled 2 matched bets, refunded 1 unmatched bets");
    assert_eq!(r.notice, "Market settled. 2 bets settled, 1 refunded.");
}

#[test]
fn market_figures() {
    let mut settled = matched_bet();
    settled.status = BetStatus::Settled;
    let s = market_stats(&vec![open_bet(100), matched_bet(), settled, matched_bet()]);
    assert_eq!((s.total_bets, s.open_bets, s.matched_bets, s.settled_bets, s.refunded_bets), (4, 1, 2, 1, 0));
    assert_eq!(s.total_pot, 2000);
    assert_eq!(sub_pledge_notice("Ann", 15000, "first_goal"), "Ann pledged KES 150 on first_goal");
    assert_eq!(sub_matched_notice("Bob", &None), "Bob matched a bet on sub-fixture");
    assert_eq!(sub_matched_notice("Bob", &Some("first_card".to_string())), "Bob matched a bet on first_card");
}

#[test]
fn liking_twice_changes_nothing_and_unliking_undoes_it() {
    let mut s = LikeState { likes_count: 2, liked_by: vec!["a".to_string(), "b".to_string()] };
    assert!(s.like("c"));
    assert_eq!(s.likes_count, 3);
    assert!(!s.like("c"));
    assert_eq!(s.likes_count, 3);
    assert_eq!(s.liked_by.len(), 3);
    assert!(s.unlike("c"));
    assert_eq!(s.likes_count, 2);
    assert_eq!(s.liked_by, vec!["a".to_string(), "b".to_string()]);
    assert!(!s.unlike("c"));
}

#[test]
fn fixture_likes_toggle() {
    assert_eq!(decide_toggle_like("like", false).unwrap(), LikeToggle { delta: 1, liked: true });
    assert_eq!(validation(decide_toggle_like("like", true).unwrap_err()), "Already liked this fixture");
    assert_eq!(decide_toggle_like("unlike", true).unwrap(), LikeToggle { delta: -1, liked: false });
    assert_eq!(validation(decide_toggle_like("unlike", false).unwrap_err()), "Not liked this fixture");
    assert_eq!(post_like_title(&None), "❤️ Someone liked a post");
    assert_eq!(post_like_title(&Some("Ann".to_string())), "❤️ Ann liked a post");
    assert_eq!(like_count_body(12, "post"), "Now 12 people like this post");
    assert_eq!(like_message("Post", true, false), "Post already liked by user");
    assert_eq!(like_message("Comment", false, true), "Comment unliked successfully");
}

fn comment(text: &str, parent: Option<&str>) -> CreateCommentRequest {
    CreateCommentRequest {
        user_id: USER.to_string(),
        user_name: "Ann".to_string(),
        comment: text.to_string(),
        parent_comment_id: parent.map(|p| p.to_string()),
    }
}

#[test]
fn comments_and_replies() {
    assert_eq!(decide_comment(POST, &comment("hi", None), true, false, false).unwrap(), false);
    assert_eq!(decide_comment(POST, &comment("hi", Some(OTHER)), true, true, true).unwrap(), true);
    assert_eq!(validation(decide_comment(POST, &comment("  ", None), true, false, false).unwrap_err()), "Comment cannot be empty");
    assert_eq!(decide_comment("x", &comment("hi", None), true, false, false).unwrap_err(), AppError::PostNotFound);
    assert_eq!(
        validation(decide_comment(POST, &comment("hi", None), true, true, false).unwrap_err()),
        "You have already commented on this post. You can edit your existing comment."
    );
    assert_eq!(validation(decide_comment(POST, &comment("hi", Some("p")), true, false, true).unwrap_err()), "Invalid parent comment ID");
    assert_eq!(validation(decide_comment(POST, &comment("hi", Some(OTHER)), true, false, false).unwrap_err()), "Parent comment not found");
    assert_eq!(validation(check_comment_found("x", true).unwrap_err()), "Invalid comment ID");
    assert_eq!(validation(check_comment_found(POST, false).unwrap_err()), "Comment not found");
}

#[test]
fn only_authors_change_comments() {
    let upd = UpdateCommentRequest { user_id: USER.to_string(), comment: "new".to_string() };
    assert!(decide_comment_edit(POST, &Some(USER.to_string()), &upd).is_ok());
    assert_eq!(validation(decide_comment_edit(POST, &Some(OTHER.to_string()), &upd).unwrap_err()), "You can only edit your own comments");
    assert!(decide_comment_deletion(POST, &Some(USER.to_string()), USER).is_ok());
    assert_eq!(validation(decide_comment_deletion(POST, &Some(USER.to_string()), OTHER).unwrap_err()), "You can only delete your own comments");
    assert_eq!(validation(decide_comment_deletion(POST, &None, OTHER).unwrap_err()), "Comment not found");
    assert_eq!(comment_sort("likes"), CommentSort::Likes);
    assert_eq!(comment_sort("whatever"), CommentSort::Newest);
    let p = comment_page(3, 500);
    assert_eq!((p.page, p.limit, p.skip), (3, 100, 200));
}

#[test]
fn comment_notices_reach_the_right_people() {
    let n = comment_notices(USER, "Ann", "nice", true, &Some((OTHER.to_string(), "Bob".to_string())), POST);
    assert_eq!(n.title, "💬 Ann replied to a comment");
    assert_eq!(n.body, "Replied to @Bob: nice");
    assert_eq!(n.parent_author, Some((OTHER.to_string(), "💬 Ann replied to your comment".to_string())));
    assert_eq!(n.post_owner, Some((POST.to_string(), "💬 Ann commented on your post".to_string())));
    let n = comment_notices(USER, "Ann", "nice", false, &None, USER);
    assert_eq!(n.title, "💬 Ann commented on a post");
    assert_eq!(n.body, "nice");
    assert!(n.parent_author.is_none() && n.post_owner.is_none());
}

fn comrade_req() -> AddComradeRequest {
    AddComradeRequest {
        user_id: "u1".to_string(),
        comrade_id: "u2".to_string(),
        username: "Ann".to_string(),
        comrade_username: "Bob".to_string(),
        comrade_nickname: "Bobby".to_string(),
        comrade_club: "FC".to_string(),
        comrade_country: "KE".to_string(),
    }
}

#[test]
fn friendships_are_stored_both_ways() {
    let (a, b) = decide_add_comrade(&comrade_req(), false).unwrap();
    assert_eq!((a.user_id.as_str(), a.comrade_id.as_str(), a.comrade_nickname.as_str()), ("u1", "u2", "Bobby"));
    assert_eq!((b.user_id.as_str(), b.comrade_id.as_str(), b.comrade_nickname.as_str()), ("u2", "u1", "Ann"));
    assert_eq!((a.status.as_str(), b.status.as_str()), ("active", "active"));
    assert_eq!(decide_add_comrade(&comrade_req(), true).unwrap_err(), AppError::UserAlreadyExists);
    let mut r = comrade_req();
    r.comrade_username = String::new();
    assert_eq!(decide_add_comrade(&r, false).unwrap_err(), AppError::MissingRequiredField("comrade_username".to_string()));
}

#[test]
fn removing_a_friendship_undoes_adding_it() {
    let mut book = ComradeBook { links: vec![("u3".to_string(), "u4".to_string()), ("u4".to_string(), "u3".to_string())] };
    let before = book.links.clone();
    book.add("u1", "u2");
    assert_eq!(book.links.len(), 4);
    assert_eq!(book.remove("u1", "u2"), 2);
    assert_eq!(book.links, before);
    assert_eq!(book.remove("u1", "u2"), 0);
}

#[test]
fn comrade_figures_and_candidates() {
    let s = comrade_stats(48);
    assert_eq!((s.count, s.max_comrades, s.remaining, s.can_add_more), (48, MAX_COMRADES, 2, true));
    let s = comrade_stats(60);
    assert_eq!((s.remaining, s.can_add_more), (0, false));
    let links = vec![("u1".to_string(), "u2".to_string()), ("u3".to_string(), "u1".to_string())];
    let profiles: Vec<String> = ["u1", "u2", "u3", "u4", "u5"].iter().map(|s| s.to_string()).collect();
    assert_eq!(available_users("u1", &links, &profiles), vec![3, 4]);
}

#[test]
fn a_filled_market_bet_settles_to_its_pot() {
    let key = Some("m1_first_goal".to_string());
    let up = Some("upcoming".to_string());
    let ob = open_bet(700);
    let req = fill_req(OTHER, "away", 700);
    let f = decide_sub_bet_fill(POST, &req, &None, &key, &Some(ob.clone()), &up, false, Some(5000)).unwrap();
    assert_eq!(f.total_pot, 1400);
    let filled = SubFixtureBet {
        finisher_id: Some(req.finisher_id.clone()),
        finisher_name: Some(req.finisher_name.clone()),
        finisher_selection: Some(req.selection.clone()),
        finisher_amount: Some(req.amount),
        status: BetStatus::Matched,
        total_pot: f.total_pot as i64,
        ..ob
    };
    for w in [Some("home".to_string()), Some("away".to_string()), Some("x".to_string()), None] {
        let s = settle_sub_bet(&filled, &w);
        assert_eq!((s.starter_credit + s.finisher_credit) as i128, f.total_pot);
    }
}

#[test]
fn match_announcements_reach_each_follower_once() {
    let ch = |v: &[&str]| v.iter().map(|s| s.to_string()).collect::<Vec<String>>();
    let r = match_recipients(&vec![ch(&["a", "b", "c"]), ch(&["c", "d", "a"]), ch(&[])], "b");
    assert_eq!(r, vec!["a".to_string(), "c".to_string(), "d".to_string()]);
    assert!(match_recipients(&vec![ch(&["b"])], "b").is_empty());
}
