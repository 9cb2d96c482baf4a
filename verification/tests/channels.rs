use fanclash::channels::{
    notification_plan, Delivery, busiest_channel, channel_pledgers, latest_per_channel, ScoreEntry, channel_totals, check_sender, compute_payout, decide_chat_media_upload, decide_join_by_code,
    decide_message_deletion, fixture_label, fresh_channel_keys, initial_members, invite_code_of, join_approved_notice,
    join_declined_notice, join_request_notice, message_limit, message_preview, message_title, new_member,
    payout_type_name, reward_counts, reward_days, table_order, unread_updates, Channel, ChannelMember,
    ComputeRewardScoreQuery, CreateChannelRequest, DeleteMessageRequest, FixtureInfo, MediaKind, MessagesQuery,
    NewMember, PayoutType, PendingRequest, PreviousPayout, RequestJoinRequest, SendMessageRequest, UnreadCount,
};
use fanclash::errors::AppError;
use fanclash::votes::MemberStats;

const U1: &str = "507f1f77bcf86cd799439011";
const U2: &str = "507f1f77bcf86cd799439012";
const U3: &str = "507f1f77bcf86cd799439013";

fn validation(e: AppError) -> String {
    match e {
        AppError::ValidationError(m) => m,
        other => panic!("not a validation error: {:?}", other),
    }
}

fn member(id: &str, role: &str, points: i32, votes: i32, msgs: i32) -> ChannelMember {
    ChannelMember {
        user_id: id.to_string(),
        username: format!("name-{}", &id[20..]),
        role: role.to_string(),
        season_points: points,
        correct_votes: 0,
        total_votes: votes,
        msg_count: msgs,
        likes_count: 0,
        joined_at: 1_000,
        last_active_at: None,
    }
}

fn channel(members: Vec<ChannelMember>) -> Channel {
    let n = members.len() as i64;
    Channel {
        channel_id: "c1".to_string(),
        name: "Fans".to_string(),
        created_by: U1.to_string(),
        season: "2025".to_string(),
        members,
        member_count: n,
        invite_code: "ABCDEF".to_string(),
        pending_requests: vec![],
    }
}

#[test]
fn a_rejected_request_leaves_the_waiting_list_as_it_was() {
    let mut c = channel(vec![member(U1, "admin", 0, 0, 0)]);
    c.pending_requests.push(PendingRequest { user_id: U3.to_string(), username: "c".to_string() });
    let before: Vec<String> = c.pending_requests.iter().map(|p| p.user_id.clone()).collect();
    assert_eq!(c.request_join(U2, "b").unwrap(), 2);
    assert!(c.is_pending(U2));
    c.reject_join(U2).unwrap();
    let after: Vec<String> = c.pending_requests.iter().map(|p| p.user_id.clone()).collect();
    assert_eq!(after, before);
    assert_eq!(c.reject_join(U2).unwrap_err(), AppError::DocumentNotFound);
}

#[test]
fn join_requests_are_refused_twice() {
    let mut c = channel(vec![member(U1, "admin", 0, 0, 0)]);
    assert_eq!(validation(c.request_join(U1, "a").unwrap_err()), "Already a member of this channel");
    c.request_join(U2, "b").unwrap();
    assert_eq!(validation(c.request_join(U2, "b").unwrap_err()), "Join request already pending");
}

#[test]
fn approving_a_request_makes_a_member() {
    let mut c = channel(vec![member(U1, "admin", 0, 0, 0)]);
    c.request_join(U2, "b").unwrap();
    let stats = MemberStats { season_points: 7, correct_votes: 2, total_votes: 4 };
    c.approve_join(U2, "b", Some(stats), 5_000).unwrap();
    assert!(!c.is_pending(U2));
    assert!(c.is_member(U2));
    assert_eq!(c.member_count, 2);
    let m = c.members.last().unwrap();
    assert_eq!((m.role.as_str(), m.season_points, m.total_votes, m.joined_at), ("member", 7, 4, 5_000));
    assert!(matches!(c.approve_join("bad", "x", None, 0), Err(AppError::InvalidObjectId(_))));
}

#[test]
fn leaving_a_channel() {
    // a channel that lists an admin keeps every member
    let mut c = channel(vec![member(U1, "admin", 0, 0, 0), member(U2, "member", 0, 0, 0)]);
    assert_eq!(validation(c.leave(U2).unwrap_err()), "Cannot leave. Either not a member, or you are the admin");
    // without an admin a member may leave
    let mut c = channel(vec![member(U1, "member", 0, 0, 0), member(U2, "member", 0, 0, 0)]);
    c.leave(U2).unwrap();
    assert!(!c.is_member(U2));
    assert_eq!(c.member_count, 1);
    assert!(c.leave(U3).is_err());
}

#[test]
fn adding_members_skips_malformed_ids() {
    let mut c = channel(vec![member(U1, "admin", 0, 0, 0)]);
    let new = vec![
        NewMember { user_id: U2.to_string(), username: "b".to_string() },
        NewMember { user_id: "nope".to_string(), username: "x".to_string() },
        NewMember { user_id: U3.to_string(), username: "c".to_string() },
    ];
    let added = c.add_members(&new, &vec![None, None, None], 9);
    assert_eq!(added, 2);
    assert_eq!(c.member_count, 3);
    assert_eq!(c.members[2].user_id, U3);
    c.add_member(new_member("x", "y", None, 1));
    assert_eq!(c.member_count, 4);
}

#[test]
fn joining_by_code_and_sending() {
    let c = channel(vec![member(U1, "admin", 0, 0, 0)]);
    assert_eq!(validation(decide_join_by_code(&None, U2).unwrap_err()), "Invalid invite code");
    assert_eq!(validation(decide_join_by_code(&Some(c.clone()), U1).unwrap_err()), "Already a member of this channel");
    assert!(decide_join_by_code(&Some(c.clone()), U2).is_ok());
    assert!(matches!(decide_join_by_code(&Some(c.clone()), "zz"), Err(AppError::InvalidObjectId(_))));
    assert!(check_sender(&Some(c.clone()), U1).is_ok());
    assert_eq!(validation(check_sender(&Some(c.clone()), U2).unwrap_err()), "User is not a member of this channel");
    assert_eq!(check_sender(&None, U1).unwrap_err(), AppError::DocumentNotFound);
}

#[test]
fn the_table_ranks_by_points_then_listing() {
    let members = vec![
        member(U1, "admin", 5, 0, 0),
        member(U2, "member", 9, 0, 0),
        member(U3, "member", 5, 0, 0),
    ];
    assert_eq!(table_order(&members), vec![1, 0, 2]);
    assert!(table_order(&vec![]).is_empty());
}

#[test]
fn admin_payouts() {
    let c = channel(vec![member(U2, "member", 0, 3, 10), member(U1, "admin", 0, 4, 5)]);
    assert_eq!(channel_totals(&c.members), (7, 15));
    let first = compute_payout(&c, None);
    assert_eq!(first.user_id, U1);
    assert_eq!(first.amount, 10_000);
    assert_eq!(first.payout_type, PayoutType::SignupBonus);
    assert_eq!(payout_type_name(first.payout_type), "signup_bonus");
    let prev = PreviousPayout { votes_at_payout: Some(5), messages_at_payout: Some(20) };
    let next = compute_payout(&c, Some(prev));
    // two new votes at 10 shillings; messages went down, which earns nothing
    assert_eq!(next.amount, 2_000);
    assert_eq!(next.payout_type, PayoutType::EngagementRate);
    assert_eq!((next.votes_at_payout, next.messages_at_payout), (7, 15));
    let unrecorded = PreviousPayout { votes_at_payout: None, messages_at_payout: None };
    assert_eq!(compute_payout(&c, Some(unrecorded)).amount, 7 * 1_000 + 15 * 100);
    let no_admin = channel(vec![member(U2, "member", 0, 0, 0)]);
    assert_eq!(compute_payout(&no_admin, None).user_id, U1);
}

#[test]
fn invite_codes_are_six_upper_case_characters() {
    assert_eq!(invite_code_of("3f2a9c1e-7b4d-4e8a-9f00-1234567890ab"), "3F2A9C");
    let (id, code) = fresh_channel_keys();
    assert_eq!(id.len(), 36);
    assert_eq!(id.matches('-').count(), 4);
    assert_eq!(code.chars().count(), 6);
    assert!(code.chars().all(|c| c.is_ascii_digit() || ('A'..='F').contains(&c)));
    let (id2, _) = fresh_channel_keys();
    assert_ne!(id, id2);
}

#[test]
fn a_new_channel_starts_with_its_admin() {
    let req = CreateChannelRequest {
        name: "Fans".to_string(),
        created_by: U1.to_string(),
        created_by_username: "a".to_string(),
        season: "2025".to_string(),
        members: Some(vec![
            NewMember { user_id: U1.to_string(), username: "a".to_string() },
            NewMember { user_id: U2.to_string(), username: "b".to_string() },
        ]),
    };
    let stats = vec![None, Some(MemberStats { season_points: 3, correct_votes: 1, total_votes: 2 })];
    let m = initial_members(&req, &stats, 77);
    assert_eq!(m.len(), 2);
    assert_eq!((m[0].user_id.as_str(), m[0].role.as_str()), (U1, "admin"));
    assert_eq!((m[1].user_id.as_str(), m[1].role.as_str(), m[1].season_points), (U2, "member", 3));
}

#[test]
fn reward_period_counts() {
    let mut a = member(U1, "admin", 0, 2, 0);
    a.last_active_at = Some(200);
    a.joined_at = 50;
    let mut b = member(U2, "member", 0, 0, 0);
    b.last_active_at = Some(150);
    b.joined_at = 120;
    let mut c = member(U3, "member", 0, 5, 0);
    c.last_active_at = Some(50);
    c.joined_at = 50;
    let ch = channel(vec![a, b, c]);
    let r = reward_counts(&ch, 100, 4, 1);
    assert_eq!((r.member_count, r.active, r.voting, r.eligible, r.retained, r.net_member_growth), (3, 2, 1, 2, 1, 3));
    let mut empty = channel(vec![]);
    empty.member_count = 0;
    assert_eq!(reward_counts(&empty, 0, 0, 0).member_count, 1);
    assert_eq!(reward_days(&ComputeRewardScoreQuery { days: None }), 7);
    assert_eq!(reward_days(&ComputeRewardScoreQuery { days: Some(30) }), 30);
}

#[test]
fn channel_notices() {
    let req = RequestJoinRequest { channel_id: "c1".to_string(), user_id: U2.to_string(), username: "b".to_string(), user_nickname: Some("Bee".to_string()) };
    assert_eq!(join_request_notice(&req, "Fans"), "Bee wants to join 'Fans'");
    assert_eq!(join_approved_notice("Fans"), "You have been added to 'Fans' 🎉");
    assert_eq!(join_declined_notice("Fans"), "Your request to join 'Fans' was declined");
    assert_eq!(message_title("Ann"), "💬 Ann sent a message");
}

fn message(text: &str, image: bool, video: bool) -> SendMessageRequest {
    SendMessageRequest {
        user_id: U1.to_string(),
        username: "a".to_string(),
        text: text.to_string(),
        fixture_id: None,
        selection: None,
        caption: None,
        image_url: None,
        is_image: image,
        video_url: None,
        is_video: video,
        reply_to_id: None,
        reply_to_text: None,
        reply_to_username: None,
        reply_to_selection: None,
    }
}

#[test]
fn message_previews_and_limits() {
    assert_eq!(message_preview(&message("hi", true, true)), "📷 Image");
    assert_eq!(message_preview(&message("hi", false, true)), "🎥 Video");
    let long: String = "é".repeat(60);
    assert_eq!(message_preview(&message(&long, false, false)), "é".repeat(50));
    assert_eq!(message_preview(&message("short", false, false)), "short");
    let q = |l: Option<i64>| MessagesQuery { fixture_id: None, limit: l, before: None };
    assert_eq!(message_limit(&q(None)), 100);
    assert_eq!(message_limit(&q(Some(900))), 500);
    assert_eq!(message_limit(&q(Some(20))), 20);
    let del = DeleteMessageRequest { user_id: U1.to_string() };
    assert!(decide_message_deletion(&Some(U1.to_string()), &del).is_ok());
    assert_eq!(decide_message_deletion(&None, &del).unwrap_err(), AppError::DocumentNotFound);
    assert!(decide_message_deletion(&Some(U2.to_string()), &del).is_err());
}

#[test]
fn a_message_raises_everyone_elses_unread_count() {
    let members = vec![member(U1, "admin", 0, 0, 0), member(U2, "member", 0, 0, 0), member(U3, "member", 0, 0, 0)];
    let current = vec![UnreadCount { user_id: U3.to_string(), count: 4 }];
    let r = unread_updates(&current, &members, U2);
    let got: Vec<(String, i64)> = r.iter().map(|u| (u.user_id.clone(), u.count)).collect();
    assert_eq!(got, vec![(U1.to_string(), 1), (U3.to_string(), 5)]);
}

#[test]
fn fixture_labels() {
    let info = FixtureInfo {
        home_team: "Gor".to_string(),
        away_team: "AFC".to_string(),
        date_iso: "2025-05-01".to_string(),
        time: "16:00".to_string(),
        status: "upcoming".to_string(),
    };
    let l = fixture_label("f9", &Some(info));
    assert_eq!((l.match_name.as_str(), l.kickoff_time.as_str(), l.status.as_str()), ("Gor vs AFC", "2025-05-01 16:00", "upcoming"));
    let l = fixture_label("f9", &None);
    assert_eq!((l.match_name.as_str(), l.kickoff_time.as_str(), l.status.as_str()), ("Fixture f9", "", "live"));
}

#[test]
fn chat_uploads() {
    assert_eq!(validation(decide_chat_media_upload(U1, false, &None).unwrap_err()), "No file provided");
    assert_eq!(validation(decide_chat_media_upload(U1, true, &None).unwrap_err()), "No file name");
    assert_eq!(validation(decide_chat_media_upload("", true, &Some("a.png".to_string())).unwrap_err()), "User ID is required");
    let p = decide_chat_media_upload(U1, true, &Some("Clip.MP4".to_string())).unwrap();
    assert_eq!((p.kind, p.extension.as_str()), (MediaKind::Video, "mp4"));
    let p = decide_chat_media_upload(U1, true, &Some("photo.jpeg".to_string())).unwrap();
    assert_eq!((p.kind, p.extension.as_str()), (MediaKind::Image, "jpeg"));
    let p = decide_chat_media_upload(U1, true, &Some("README".to_string())).unwrap();
    assert_eq!((p.kind, p.extension.as_str()), (MediaKind::Image, ""));
    let p = decide_chat_media_upload(U1, true, &Some(".webm".to_string())).unwrap();
    assert_eq!((p.kind, p.extension.as_str()), (MediaKind::Image, ""));
}

#[test]
fn the_leaderboard_keeps_each_channels_latest_score() {
    let e = |c: &str, t: i64| ScoreEntry { channel_id: c.to_string(), computed_at: t };
    let scores = vec![e("a", 5), e("b", 9), e("a", 7), e("c", 1), e("b", 9), e("a", 2)];
    assert_eq!(latest_per_channel(&scores), vec![1, 2, 3]);
    assert!(latest_per_channel(&vec![]).is_empty());
}

#[test]
fn the_busiest_channel_of_the_week() {
    assert_eq!(busiest_channel(&vec![]), None);
    assert_eq!(busiest_channel(&vec![3, 12, 7, 12]), Some(1));
    assert_eq!(busiest_channel(&vec![0]), Some(0));
}

#[test]
fn pledgers_are_listed_under_their_channel_names() {
    let mut renamed = member(U2, "member", 0, 0, 0);
    renamed.username = "Bee".to_string();
    let members = vec![member(U1, "admin", 0, 0, 0), member(U2, "member", 0, 0, 0), renamed];
    let starters = vec![U3.to_string(), U2.to_string(), U1.to_string(), U2.to_string()];
    let r = channel_pledgers(&starters, &members);
    let got: Vec<(usize, &str)> = r.iter().map(|(i, n)| (*i, n.as_str())).collect();
    assert_eq!(got, vec![(1, "Bee"), (2, "name-9011"), (3, "Bee")]);
}

#[test]
fn announcements_reach_every_other_member() {
    let members = vec![member(U1, "admin", 0, 0, 0), member(U2, "member", 0, 0, 0), member(U3, "member", 0, 0, 0)];
    let p = notification_plan(&members, &vec![true, true, false], U1, true);
    assert!(p.broadcast);
    assert_eq!(p.deliveries, vec![Delivery::Socket(format!("user_{}", U2)), Delivery::Push(U3.to_string())]);
    let p = notification_plan(&members, &vec![true, true, false], U1, false);
    assert!(p.broadcast && p.deliveries.is_empty());
    let alone = vec![member(U1, "admin", 0, 0, 0)];
    let p = notification_plan(&alone, &vec![false], U1, true);
    assert!(!p.broadcast && p.deliveries.is_empty());
}
