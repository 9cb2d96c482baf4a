use fanclash::direct_chat::{
    chat_preview, check_message_id, deletion_outcome, edit_message, get_post_messages, get_unread_count,
    get_user_messages, mark_messages_as_seen, message_lookup, new_chat_message, notice_title, pages_of, post_thread,
    push_title, user_thread, window_of, ChatMessage, CreateChatMessage, MarkAsSeenRequest, PaginationQuery,
    UpdateChatMessage,
};
use fanclash::errors::AppError;
use fanclash::posts::{
    cached_answer, parse_if_modified_since, search_window, SearchParams, blank, check_image, check_post_found, check_video, decide_bulk_deletion, decide_post, decide_post_change,
    decide_video_access, keep_caption, media_extension, media_label, new_post_title, page_info, page_of,
    parse_post_type_filter, post_preview, post_type_name, DeletePostsByUserRequest, PostType, MAX_FILE_SIZE,
    MAX_VIDEO_SIZE,
};
use fanclash::timeline::{
    added_events_message, deleted_events_message, event_deletion_outcome, events_by_type, latest_event,
    latest_statistics, match_events, match_statistics, missing_minute_message, statistics_at_minute, EventRecord,
    SnapshotRecord,
};

const POST: &str = "65a1b2c3d4e5f60718293a4b";
const USER: &str = "507f1f77bcf86cd799439011";

fn validation(e: AppError) -> String {
    match e {
        AppError::ValidationError(m) => m,
        other => panic!("not a validation error: {:?}", other),
    }
}

#[test]
fn uploads_are_checked_by_size_then_extension() {
    assert_eq!(media_extension("Photo.JPG"), "jpg");
    assert_eq!(media_extension("archive.tar.GZ"), "gz");
    assert_eq!(media_extension("noext"), "");
    assert_eq!(media_extension(".hidden"), "");
    assert!(check_image(10, "png").is_ok());
    assert_eq!(check_image(MAX_FILE_SIZE + 1, "png").unwrap_err(), AppError::ImageTooLarge);
    assert_eq!(check_image(10, "bmp").unwrap_err(), AppError::InvalidImageFormat);
    assert!(check_video(MAX_VIDEO_SIZE, "webm").is_ok());
    assert_eq!(validation(check_video(MAX_VIDEO_SIZE + 1, "mp4").unwrap_err()), "Video too large (max 100MB)");
    assert_eq!(validation(check_video(1, "gif").unwrap_err()), "Invalid video format");
}

#[test]
fn post_kinds() {
    assert_eq!(decide_post(USER, "Ann", true, false, false).unwrap(), PostType::Text);
    assert_eq!(decide_post(USER, "Ann", false, true, false).unwrap(), PostType::Image);
    assert_eq!(decide_post(USER, "Ann", true, true, false).unwrap(), PostType::TextAndImage);
    assert_eq!(decide_post(USER, "Ann", false, false, true).unwrap(), PostType::Video);
    assert_eq!(decide_post(USER, "Ann", false, true, true).unwrap(), PostType::TextAndVideo);
    assert_eq!(decide_post(" ", "Ann", true, false, false).unwrap_err(), AppError::InvalidUserData);
    assert_eq!(validation(decide_post(USER, "Ann", false, false, false).unwrap_err()), "Please add a caption, image, or video");
    assert_eq!(post_type_name(PostType::TextAndVideo), "TextAndVideo");
    assert_eq!(parse_post_type_filter("text_and_image").unwrap(), PostType::TextAndImage);
    assert_eq!(validation(parse_post_type_filter("Text").unwrap_err()), "Invalid post_type");
    assert_eq!(keep_caption("  \n".to_string()), None);
    assert_eq!(keep_caption(" hi ".to_string()), Some(" hi ".to_string()));
    assert!(blank("\u{a0}\t"));
    assert_eq!(media_label(true, true), "image_and_video");
    assert_eq!(new_post_title("video", "Ann"), "📱 New video post from Ann!");
}

#[test]
fn post_previews_cut_at_fifty_bytes() {
    let long = "a".repeat(60);
    assert_eq!(post_preview(&long), format!("{}...", "a".repeat(50)));
    assert_eq!(post_preview("short"), "short");
    let exact = "a".repeat(50);
    assert_eq!(post_preview(&exact), exact);
}

#[test]
fn post_pages() {
    let p = page_of(None, None);
    assert_eq!((p.page, p.limit, p.skip), (1, 20, 0));
    let p = page_of(Some(0), Some(1000));
    assert_eq!((p.page, p.limit, p.skip), (1, 100, 0));
    let p = page_of(Some(3), Some(-5));
    assert_eq!((p.page, p.limit, p.skip), (3, 1, 2));
    let info = page_info(page_of(Some(2), Some(10)), 25);
    assert_eq!((info.total_pages, info.has_next, info.has_previous), (3, true, true));
    let info = page_info(page_of(Some(1), Some(10)), 0);
    assert_eq!((info.total_pages, info.has_next, info.has_previous), (0, false, false));
}

#[test]
fn only_authors_change_posts() {
    assert!(decide_post_change(POST, &Some(USER.to_string()), USER, true).is_ok());
    assert_eq!(validation(decide_post_change(POST, &Some(USER.to_string()), "other", true).unwrap_err()), "You can only edit your own posts");
    assert_eq!(validation(decide_post_change(POST, &Some(USER.to_string()), "other", false).unwrap_err()), "You can only delete your own posts");
    assert_eq!(decide_post_change("bad", &Some(USER.to_string()), USER, true).unwrap_err(), AppError::PostNotFound);
    assert_eq!(decide_post_change(POST, &None, USER, true).unwrap_err(), AppError::PostNotFound);
    assert_eq!(check_post_found(POST, false).unwrap_err(), AppError::PostNotFound);
    let req = DeletePostsByUserRequest { requesting_user_id: "u2".to_string() };
    assert_eq!(validation(decide_bulk_deletion("u1", &req).unwrap_err()), "You can only delete your own posts");
    assert!(decide_bulk_deletion("u2", &req).is_ok());
    assert_eq!(validation(decide_video_access(POST, Some(false)).unwrap_err()), "This post has no video");
    assert!(decide_video_access(POST, Some(true)).is_ok());
    assert_eq!(decide_video_access(POST, None).unwrap_err(), AppError::PostNotFound);
}

fn msg(post: &str, from: &str, to: &str, at: i64, seen: bool) -> ChatMessage {
    ChatMessage {
        post_id: post.to_string(),
        sender_id: from.to_string(),
        receiver_id: to.to_string(),
        sender_name: from.to_uppercase(),
        receiver_name: to.to_uppercase(),
        message: format!("m{}", at),
        seen,
        created_at: at,
        updated_at: None,
    }
}

#[test]
fn new_and_edited_messages() {
    let req = CreateChatMessage {
        sender_id: "a".to_string(),
        receiver_id: "b".to_string(),
        sender_name: "A".to_string(),
        receiver_name: "B".to_string(),
        message: "hello".to_string(),
    };
    let mut m = new_chat_message("p1", &req, 42);
    assert_eq!((m.post_id.as_str(), m.message.as_str(), m.seen, m.created_at, m.updated_at), ("p1", "hello", false, 42, None));
    edit_message(&mut m, &UpdateChatMessage { message: "bye".to_string() }, 50);
    assert_eq!((m.message.as_str(), m.updated_at, m.created_at), ("bye", Some(50), 42));
}

#[test]
fn marking_seen_clears_what_waits_for_the_reader() {
    let mut msgs = vec![
        msg("p1", "a", "b", 1, false),
        msg("p1", "b", "a", 2, false),
        msg("p1", "a", "b", 3, false),
        msg("p2", "a", "b", 4, false),
        msg("p1", "a", "b", 5, true),
    ];
    assert_eq!(get_unread_count(&msgs, "p1"), 3);
    let req = MarkAsSeenRequest { post_id: "p1".to_string(), user_id: "b".to_string() };
    assert_eq!(mark_messages_as_seen(&mut msgs, &req), 2);
    assert_eq!(get_unread_count(&msgs, "p1"), 1);
    assert!(!msgs[1].seen && !msgs[3].seen);
    let after = msgs.clone();
    assert_eq!(mark_messages_as_seen(&mut msgs, &req), 0);
    assert_eq!(msgs.iter().map(|m| m.seen).collect::<Vec<_>>(), after.iter().map(|m| m.seen).collect::<Vec<_>>());
}

fn page(p: Option<u32>, l: Option<u32>) -> PaginationQuery {
    PaginationQuery { page: p, limit: l }
}

#[test]
fn message_listings_page_through_threads() {
    let msgs = vec![
        msg("p1", "a", "b", 30, false),
        msg("p2", "a", "c", 10, false),
        msg("p1", "b", "a", 10, false),
        msg("p1", "a", "b", 20, false),
        msg("p1", "c", "d", 20, false),
    ];
    assert_eq!(post_thread(&msgs, "p1"), vec![2, 3, 4, 0]);
    assert_eq!(user_thread(&msgs, "a"), vec![0, 3, 1, 2]);
    let r = get_post_messages(&msgs, "p1", page(Some(2), Some(3)));
    assert_eq!(r.messages, vec![0]);
    assert_eq!((r.total, r.page, r.limit, r.total_pages), (4, 2, 3, 2));
    let r = get_post_messages(&msgs, "p1", page(None, None));
    assert_eq!(r.messages, vec![2, 3, 4, 0]);
    assert_eq!((r.page, r.limit, r.total_pages), (1, 50, 1));
    let r = get_post_messages(&msgs, "p1", page(Some(1), Some(0)));
    assert_eq!(r.messages.len(), 4);
    assert_eq!(r.total_pages, i64::MAX);
    let r = get_post_messages(&msgs, "none", page(Some(1), Some(0)));
    assert_eq!((r.total, r.total_pages), (0, 0));
    let r = get_user_messages(&msgs, "a", page(Some(2), Some(2)));
    assert_eq!(r.messages, vec![1, 2]);
    assert_eq!(window_of(&vec![7, 8, 9], page(Some(5), Some(2))), Vec::<usize>::new());
    assert_eq!(pages_of(7, 3), 3);
    assert_eq!(pages_of(6, 3), 2);
}

#[test]
fn message_lookups_and_notices() {
    assert!(check_message_id(POST).is_ok());
    let f = check_message_id("nope").unwrap_err();
    assert_eq!((f.status, f.error.as_str()), (400, "Invalid message ID format"));
    let f = message_lookup(POST, false).unwrap_err();
    assert_eq!((f.status, f.error.as_str()), (404, "Message not found"));
    assert_eq!(deletion_outcome(POST, 1).unwrap(), "Message deleted successfully");
    assert_eq!(deletion_outcome(POST, 0).unwrap_err().status, 404);
    assert_eq!(deletion_outcome("x", 1).unwrap_err().status, 400);
    assert_eq!(push_title("Ann"), "💬 New message from Ann");
    assert_eq!(notice_title("Ann"), "New message from Ann");
    assert_eq!(chat_preview(&"b".repeat(51)), format!("{}...", "b".repeat(50)));
    assert_eq!(chat_preview("hey"), "hey");
}

fn ev(m: &str, t: &str, minute: i32) -> EventRecord {
    EventRecord { match_id: m.to_string(), event_type: t.to_string(), minute }
}

#[test]
fn match_timelines_in_minute_order() {
    let events = vec![ev("m1", "goal", 67), ev("m1", "card", 12), ev("m2", "goal", 5), ev("m1", "goal", 12), ev("m1", "goal", 90)];
    assert_eq!(match_events(&events, "m1"), vec![1, 3, 0, 4]);
    assert_eq!(events_by_type(&events, "m1", "goal"), vec![3, 0, 4]);
    assert_eq!(latest_event(&events, "m1"), Some(4));
    assert_eq!(latest_event(&events, "m3"), None);
    let tied = vec![ev("m1", "goal", 80), ev("m1", "card", 80)];
    assert_eq!(latest_event(&tied, "m1"), Some(0));
    let snaps = vec![
        SnapshotRecord { match_id: "m1".to_string(), minute: 45 },
        SnapshotRecord { match_id: "m1".to_string(), minute: 15 },
        SnapshotRecord { match_id: "m2".to_string(), minute: 90 },
    ];
    assert_eq!(match_statistics(&snaps, "m1"), vec![1, 0]);
    assert_eq!(latest_statistics(&snaps, "m1"), Some(0));
    assert_eq!(statistics_at_minute(&snaps, "m1", 15), Some(1));
    assert_eq!(statistics_at_minute(&snaps, "m1", 90), None);
}

#[test]
fn timeline_messages() {
    assert_eq!(missing_minute_message(34), "No statistics found for minute 34");
    assert_eq!(missing_minute_message(-2), "No statistics found for minute -2");
    assert_eq!(added_events_message(3), "Added 3 events");
    assert_eq!(deleted_events_message(0), "Deleted 0 events");
    assert_eq!(event_deletion_outcome(0), (false, "Event not found"));
    assert_eq!(event_deletion_outcome(1), (true, "Event deleted successfully"));
}

#[test]
fn if_modified_since_reads_dates_and_seconds() {
    assert_eq!(parse_if_modified_since("2025-05-01T00:00:00Z"), Some(1_746_057_600_000));
    assert_eq!(parse_if_modified_since("2025-05-01T03:00:00+03:00"), Some(1_746_057_600_000));
    assert_eq!(parse_if_modified_since("2025-05-01T00:00:00.250Z"), Some(1_746_057_600_250));
    assert_eq!(parse_if_modified_since("1746057600"), Some(1_746_057_600_000));
    assert_eq!(parse_if_modified_since("+5"), Some(5_000));
    assert_eq!(parse_if_modified_since("-5"), Some(-5_000));
    assert_eq!(parse_if_modified_since(" 5"), None);
    assert_eq!(parse_if_modified_since("yesterday"), None);
    assert_eq!(parse_if_modified_since("-8334601228800"), Some(-8_334_601_228_800_000));
    assert_eq!(parse_if_modified_since("-8334601228801"), None);
    assert_eq!(parse_if_modified_since("8210266876799"), Some(8_210_266_876_799_000));
    assert_eq!(parse_if_modified_since("8210266876800"), None);
    assert_eq!(parse_if_modified_since("9223372036854775807"), None);
    assert_eq!(cached_answer(Some(1_746_057_600_250), 0), Some(1_746_057_600));
    assert_eq!(cached_answer(Some(-1), 0), Some(-1));
    assert_eq!(cached_answer(Some(5_000), 2), None);
    assert_eq!(cached_answer(None, 0), None);
}

#[test]
fn search_windows_keep_one_date_bound() {
    let q = |s: Option<&str>, e: Option<&str>| SearchParams {
        q: None,
        user_id: None,
        post_type: None,
        start_date: s.map(|x| x.to_string()),
        end_date: e.map(|x| x.to_string()),
        page: None,
        limit: None,
    };
    let w = search_window(&q(Some("2025-05-01T00:00:00Z"), None));
    assert_eq!((w.created_from, w.created_to), (Some(1_746_057_600_000), None));
    let w = search_window(&q(Some("2025-05-01T00:00:00Z"), Some("2025-05-02T00:00:00Z")));
    assert_eq!((w.created_from, w.created_to), (None, Some(1_746_144_000_000)));
    let w = search_window(&q(Some("2025-05-01T00:00:00Z"), Some("soon")));
    assert_eq!((w.created_from, w.created_to), (Some(1_746_057_600_000), None));
}
