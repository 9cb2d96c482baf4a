//! Direct chat about a post: messages between two users, each marked seen
//! once its receiver has read it, listed a page at a time.

use vstd::prelude::*;
use crate::ids::{is_object_id, check_object_id};
use crate::order::{sort_by_time, lemma_push_contains, time_before};
use crate::posts::{cuts_cleanly, byte_len, preview_bytes};
use crate::text::{str_eq, concat};

verus! {

/// A stored chat message. Times are milliseconds since the epoch.
#[derive(Debug, Clone)]
pub struct ChatMessage {
    pub post_id: String,
    pub sender_id: String,
    pub receiver_id: String,
    pub sender_name: String,
    pub receiver_name: String,
    pub message: String,
    pub seen: bool,
    pub created_at: i64,
    pub updated_at: Option<i64>,
}

/// A message to send about a post.
#[derive(Debug, Clone)]
pub struct CreateChatMessage {
    pub sender_id: String,
    pub receiver_id: String,
    pub sender_name: String,
    pub receiver_name: String,
    pub message: String,
}

/// A new text for a message.
#[derive(Debug, Clone)]
pub struct UpdateChatMessage {
    pub message: String,
}

/// Marks what a user has received about a post as seen.
#[derive(Debug, Clone)]
pub struct MarkAsSeenRequest {
    pub post_id: String,
    pub user_id: String,
}

/// Which page of messages to list, and how long a page is.
#[derive(Debug, Clone, Copy)]
pub struct PaginationQuery {
    pub page: Option<u32>,
    pub limit: Option<u32>,
}

/// The page listed when none is asked for.
pub const DEFAULT_CHAT_PAGE: u32 = 1;

/// The page length used when none is asked for.
pub const DEFAULT_CHAT_LIMIT: u32 = 50;

/// The page asked for, or the first.
pub open spec fn page_number(q: PaginationQuery) -> u32 {
    match q.page {
        Some(p) => p,
        None => DEFAULT_CHAT_PAGE,
    }
}

/// The page length asked for, or `DEFAULT_CHAT_LIMIT`; a length of 0
/// lists everything from the page's start.
pub open spec fn page_limit(q: PaginationQuery) -> u32 {
    match q.limit {
        Some(l) => l,
        None => DEFAULT_CHAT_LIMIT,
    }
}

/// A request whose page number is at least 1 and whose start fits in 32
/// bits: the listings' page arithmetic is defined on it.
pub open spec fn valid_page(q: PaginationQuery) -> bool {
    page_number(q) >= 1 && (page_number(q) - 1) * page_limit(q) <= u32::MAX
}

/// The message a request sends about post `post_id` at time `now`: not yet
/// seen, never edited.
pub fn new_chat_message(post_id: &str, req: &CreateChatMessage, now: i64) -> (m: ChatMessage)
    ensures
        m.post_id@ == post_id@,
        m.sender_id@ == req.sender_id@,
        m.receiver_id@ == req.receiver_id@,
        m.sender_name@ == req.sender_name@,
        m.receiver_name@ == req.receiver_name@,
        m.message@ == req.message@,
        !m.seen,
        m.created_at == now,
        m.updated_at is None,
{
    ChatMessage {
        post_id: String::from_str(post_id),
        sender_id: req.sender_id.clone(),
        receiver_id: req.receiver_id.clone(),
        sender_name: req.sender_name.clone(),
        receiver_name: req.receiver_name.clone(),
        message: req.message.clone(),
        seen: false,
        created_at: now,
        updated_at: None,
    }
}

/// Replaces a message's text, recording when.
pub fn edit_message(m: &mut ChatMessage, req: &UpdateChatMessage, now: i64)
    ensures
        final(m).message@ == req.message@,
        final(m).updated_at == Some(now),
        final(m).post_id == old(m).post_id,
        final(m).sender_id == old(m).sender_id,
        final(m).receiver_id == old(m).receiver_id,
        final(m).sender_name == old(m).sender_name,
        final(m).receiver_name == old(m).receiver_name,
        final(m).seen == old(m).seen,
        final(m).created_at == old(m).created_at,
{
    m.message = req.message.clone();
    m.updated_at = Some(now);
}

/// Message `m` is about post `p`, was sent to `u`, and is not yet seen.
pub open spec fn unseen_by(m: ChatMessage, p: Seq<char>, u: Seq<char>) -> bool {
    m.post_id@ == p && m.receiver_id@ == u && !m.seen
}

/// How many messages about post `p` sent to `u` are not yet seen.
pub open spec fn count_unseen_by(s: Seq<ChatMessage>, p: Seq<char>, u: Seq<char>) -> nat
    decreases s.len(),
{
    if s.len() == 0 {
        0
    } else {
        count_unseen_by(s.drop_last(), p, u) + (if unseen_by(s.last(), p, u) { 1nat } else { 0nat })
    }
}

/// Message `m` is about post `p` and not yet seen (by anyone).
pub open spec fn unread_in(m: ChatMessage, p: Seq<char>) -> bool {
    m.post_id@ == p && !m.seen
}

/// How many messages about post `p` are not yet seen.
pub open spec fn count_unread(s: Seq<ChatMessage>, p: Seq<char>) -> nat
    decreases s.len(),
{
    if s.len() == 0 {
        0
    } else {
        count_unread(s.drop_last(), p) + (if unread_in(s.last(), p) { 1nat } else { 0nat })
    }
}

/// `after` is `before` with every message about `p` sent to `u` marked
/// seen, and nothing else changed.
pub open spec fn marked_seen(before: Seq<ChatMessage>, after: Seq<ChatMessage>, p: Seq<char>, u: Seq<char>) -> bool {
    &&& after.len() == before.len()
    &&& forall|i: int| 0 <= i < before.len() ==> #[trigger] after[i] == (if unseen_by(before[i], p, u) {
        ChatMessage { seen: true, ..before[i] }
    } else {
        before[i]
    })
}

proof fn lemma_count_unseen_bounded(s: Seq<ChatMessage>, p: Seq<char>, u: Seq<char>)
    ensures
        count_unseen_by(s, p, u) <= s.len(),
    decreases s.len(),
{
    if s.len() > 0 {
        lemma_count_unseen_bounded(s.drop_last(), p, u);
    }
}

fn seen_copy(m: &ChatMessage) -> (r: ChatMessage)
    ensures
        r == (ChatMessage { seen: true, ..*m }),
{
    ChatMessage {
        post_id: m.post_id.clone(),
        sender_id: m.sender_id.clone(),
        receiver_id: m.receiver_id.clone(),
        sender_name: m.sender_name.clone(),
        receiver_name: m.receiver_name.clone(),
        message: m.message.clone(),
        seen: true,
        created_at: m.created_at,
        updated_at: m.updated_at,
    }
}

/// Marks as seen every message about the request's post that was sent to
/// the request's user and is not yet seen; the result is how many.
pub fn mark_messages_as_seen(msgs: &mut Vec<ChatMessage>, req: &MarkAsSeenRequest) -> (marked: u64)
    requires
        old(msgs)@.len() <= u64::MAX,
    ensures
        marked_seen(old(msgs)@, final(msgs)@, req.post_id@, req.user_id@),
        marked == count_unseen_by(old(msgs)@, req.post_id@, req.user_id@),
{
    let ghost before = msgs@;
    let mut marked: u64 = 0;
    let mut i: usize = 0;
    while i < msgs.len()
        invariant
            before.len() <= u64::MAX,
            msgs@.len() == before.len(),
            i <= msgs@.len(),
            forall|k: int| 0 <= k < i ==> #[trigger] msgs@[k] == (if unseen_by(before[k], req.post_id@, req.user_id@) {
                ChatMessage { seen: true, ..before[k] }
            } else {
                before[k]
            }),
            forall|k: int| i <= k < msgs@.len() ==> #[trigger] msgs@[k] == before[k],
            marked == count_unseen_by(before.take(i as int), req.post_id@, req.user_id@),
        decreases msgs.len() - i,
    {
        proof {
            assert(before.take(i + 1).drop_last() =~= before.take(i as int));
            assert(before.take(i + 1).last() == before[i as int]);
            lemma_count_unseen_bounded(before.take(i as int), req.post_id@, req.user_id@);
        }
        if str_eq(msgs[i].post_id.as_str(), req.post_id.as_str())
            && str_eq(msgs[i].receiver_id.as_str(), req.user_id.as_str())
            && !msgs[i].seen
        {
            let m = seen_copy(&msgs[i]);
            msgs.set(i, m);
            marked = marked + 1;
        }
        i = i + 1;
    }
    proof {
        assert(before.take(before.len() as int) =~= before);
    }
    marked
}

/// How many messages about post `post_id` are not yet seen.
pub fn get_unread_count(msgs: &Vec<ChatMessage>, post_id: &str) -> (n: u64)
    requires
        msgs@.len() <= u64::MAX,
    ensures
        n == count_unread(msgs@, post_id@),
{
    let mut n: u64 = 0;
    let mut i: usize = 0;
    while i < msgs.len()
        invariant
            msgs@.len() <= u64::MAX,
            i <= msgs@.len(),
            n == count_unread(msgs@.take(i as int), post_id@),
            n <= i,
        decreases msgs.len() - i,
    {
        proof {
            assert(msgs@.take(i + 1).drop_last() =~= msgs@.take(i as int));
            assert(msgs@.take(i + 1).last() == msgs@[i as int]);
        }
        if str_eq(msgs[i].post_id.as_str(), post_id) && !msgs[i].seen {
            n = n + 1;
        }
        i = i + 1;
    }
    proof {
        assert(msgs@.take(msgs@.len() as int) =~= msgs@);
    }
    n
}

proof fn lemma_marked_counts(before: Seq<ChatMessage>, after: Seq<ChatMessage>, p: Seq<char>, u: Seq<char>)
    requires
        marked_seen(before, after, p, u),
    ensures
        count_unseen_by(after, p, u) == 0,
        count_unread(after, p) + count_unseen_by(before, p, u) == count_unread(before, p),
    decreases before.len(),
{
    if before.len() > 0 {
        let n = (before.len() - 1) as int;
        assert(after[n] == (if unseen_by(before[n], p, u) { ChatMessage { seen: true, ..before[n] } } else { before[n] }));
        assert forall|i: int| 0 <= i < n implies #[trigger] after.drop_last()[i] == (if unseen_by(before.drop_last()[i], p, u) {
            ChatMessage { seen: true, ..before.drop_last()[i] }
        } else {
            before.drop_last()[i]
        }) by {
            assert(after[i] == after.drop_last()[i]);
            assert(before[i] == before.drop_last()[i]);
        }
        lemma_marked_counts(before.drop_last(), after.drop_last(), p, u);
    }
}

/// Once a user has marked a post's messages seen, nothing about that post
/// waits for them, and the post's unread count has gone down by exactly
/// the number marked.
pub proof fn law_mark_seen_clears_unread(before: Seq<ChatMessage>, after: Seq<ChatMessage>, p: Seq<char>, u: Seq<char>)
    requires
        marked_seen(before, after, p, u),
    ensures
        count_unseen_by(after, p, u) == 0,
        count_unread(after, p) == count_unread(before, p) - count_unseen_by(before, p, u),
{
    lemma_marked_counts(before, after, p, u);
}

/// Marking seen twice marks nothing the second time and changes nothing.
pub proof fn law_mark_seen_idempotent(
    before: Seq<ChatMessage>,
    mid: Seq<ChatMessage>,
    after: Seq<ChatMessage>,
    p: Seq<char>,
    u: Seq<char>,
)
    requires
        marked_seen(before, mid, p, u),
        marked_seen(mid, after, p, u),
    ensures
        count_unseen_by(mid, p, u) == 0,
        after == mid,
{
    lemma_marked_counts(before, mid, p, u);
    assert forall|i: int| 0 <= i < mid.len() implies !unseen_by(#[trigger] mid[i], p, u) by {
        assert(mid[i] == (if unseen_by(before[i], p, u) { ChatMessage { seen: true, ..before[i] } } else { before[i] }));
    }
    assert(after =~= mid);
}

/// `order` lists exactly the messages (by index) for which `keep` holds,
/// each once, by creation time (newest first when `newest`), messages of
/// equal time in stored order.
pub open spec fn lists_by_time(msgs: Seq<ChatMessage>, keep: spec_fn(int) -> bool, order: Seq<usize>, newest: bool) -> bool {
    &&& forall|x: int| #![trigger keep(x)] 0 <= x < msgs.len() ==> (keep(x) <==> order.contains(x as usize))
    &&& forall|i: int| 0 <= i < order.len() ==> (#[trigger] order[i]) < msgs.len()
    &&& forall|i: int, j: int| 0 <= i < j < order.len()
        ==> time_before(sent_times(msgs), #[trigger] order[i] as int, #[trigger] order[j] as int, newest)
}

/// The creation times of the messages, in order.
pub open spec fn sent_times(msgs: Seq<ChatMessage>) -> Seq<i64> {
    msgs.map_values(|m: ChatMessage| m.created_at)
}

fn creation_times(msgs: &Vec<ChatMessage>) -> (t: Vec<i64>)
    ensures
        t@ == sent_times(msgs@),
{
    let mut t: Vec<i64> = Vec::new();
    let mut i: usize = 0;
    while i < msgs.len()
        invariant
            i <= msgs@.len(),
            t@ == sent_times(msgs@.take(i as int)),
        decreases msgs.len() - i,
    {
        t.push(msgs[i].created_at);
        proof {
            assert(msgs@.take(i + 1) =~= msgs@.take(i as int).push(msgs@[i as int]));
            assert(sent_times(msgs@.take(i + 1)) =~= sent_times(msgs@.take(i as int)).push(msgs@[i as int].created_at));
        }
        i = i + 1;
    }
    proof {
        assert(msgs@.take(msgs@.len() as int) =~= msgs@);
    }
    t
}

/// The messages about post `post_id`, oldest first.
pub fn post_thread(msgs: &Vec<ChatMessage>, post_id: &str) -> (order: Vec<usize>)
    ensures
        lists_by_time(msgs@, |x: int| msgs@[x].post_id@ == post_id@, order@, false),
{
    let mut members: Vec<usize> = Vec::new();
    let mut i: usize = 0;
    while i < msgs.len()
        invariant
            i <= msgs@.len(),
            forall|k: int| 0 <= k < members@.len() ==> (#[trigger] members@[k]) < i,
            forall|a: int, b: int| 0 <= a < b < members@.len() ==> (#[trigger] members@[a]) < (#[trigger] members@[b]),
            forall|x: int| 0 <= x < i ==> (msgs@[x].post_id@ == post_id@ <==> #[trigger] members@.contains(x as usize)),
        decreases msgs.len() - i,
    {
        proof {
            lemma_push_contains(members@, i);
            assert(!members@.contains(i));
        }
        if str_eq(msgs[i].post_id.as_str(), post_id) {
            members.push(i);
        }
        i = i + 1;
    }
    let keys = creation_times(msgs);
    sort_by_time(&keys, &members, false)
}

/// The messages a user sent or received, newest first.
pub fn user_thread(msgs: &Vec<ChatMessage>, user_id: &str) -> (order: Vec<usize>)
    ensures
        lists_by_time(msgs@, |x: int| msgs@[x].sender_id@ == user_id@ || msgs@[x].receiver_id@ == user_id@, order@, true),
{
    let mut members: Vec<usize> = Vec::new();
    let mut i: usize = 0;
    while i < msgs.len()
        invariant
            i <= msgs@.len(),
            forall|k: int| 0 <= k < members@.len() ==> (#[trigger] members@[k]) < i,
            forall|a: int, b: int| 0 <= a < b < members@.len() ==> (#[trigger] members@[a]) < (#[trigger] members@[b]),
            forall|x: int| 0 <= x < i ==> ((msgs@[x].sender_id@ == user_id@ || msgs@[x].receiver_id@ == user_id@)
                <==> #[trigger] members@.contains(x as usize)),
        decreases msgs.len() - i,
    {
        proof {
            lemma_push_contains(members@, i);
            assert(!members@.contains(i));
        }
        if str_eq(msgs[i].sender_id.as_str(), user_id) || str_eq(msgs[i].receiver_id.as_str(), user_id) {
            members.push(i);
        }
        i = i + 1;
    }
    let keys = creation_times(msgs);
    sort_by_time(&keys, &members, true)
}

/// The part of a listing a page shows: it skips `(page - 1) * limit`
/// entries and shows the next `limit`, or all the rest when `limit` is 0.
pub open spec fn page_window(s: Seq<usize>, q: PaginationQuery) -> Seq<usize> {
    let skip = (page_number(q) - 1) * page_limit(q);
    let a = if skip < s.len() { skip } else { s.len() as int };
    let b = if page_limit(q) == 0 || a + page_limit(q) > s.len() { s.len() as int } else { a + page_limit(q) };
    s.subrange(a, b)
}

/// The entries of a listing that page `q` shows.
pub fn window_of(order: &Vec<usize>, q: PaginationQuery) -> (r: Vec<usize>)
    requires
        valid_page(q),
    ensures
        r@ == page_window(order@, q),
{
    let page: u32 = match q.page {
        Some(p) => p,
        None => DEFAULT_CHAT_PAGE,
    };
    let limit: u32 = match q.limit {
        Some(l) => l,
        None => DEFAULT_CHAT_LIMIT,
    };
    let skip: u64 = (page as u64 - 1) * (limit as u64);
    let n: usize = order.len();
    let a: usize = if skip < n as u64 { skip as usize } else { n };
    let b: usize = if limit == 0 || (a as u64) + (limit as u64) > n as u64 { n } else { a + limit as usize };
    let mut r: Vec<usize> = Vec::new();
    let mut k: usize = a;
    while k < b
        invariant
            a <= k <= b,
            b <= order@.len(),
            r@ == order@.subrange(a as int, k as int),
        decreases b - k,
    {
        r.push(order[k]);
        proof {
            assert(order@.subrange(a as int, k + 1) =~= order@.subrange(a as int, k as int).push(order@[k as int]));
        }
        k = k + 1;
    }
    r
}

/// The number of pages a listing of `total` entries takes at `limit` per
/// page: the total divided by the page length, rounded up; with a length
/// of 0, none when there is nothing to list and `i64::MAX` otherwise.
pub open spec fn total_pages(total: int, limit: int) -> int {
    if limit == 0 {
        if total == 0 { 0 } else { i64::MAX as int }
    } else {
        (total + limit - 1) / limit
    }
}

/// A page of a post's messages, with the figures the listing reports.
#[derive(Debug, Clone)]
pub struct MessagePage {
    pub messages: Vec<usize>,
    pub total: u64,
    pub page: u32,
    pub limit: u32,
    pub total_pages: i64,
}

/// Page `q` of the messages about post `post_id`, oldest first, with the
/// number of such messages and of pages.
pub fn get_post_messages(msgs: &Vec<ChatMessage>, post_id: &str, q: PaginationQuery) -> (r: MessagePage)
    requires
        valid_page(q),
        msgs@.len() < MAX_EXACT_COUNT,
    ensures
        exists|all: Seq<usize>| lists_by_time(msgs@, |x: int| msgs@[x].post_id@ == post_id@, all, false)
            && r.messages@ == page_window(all, q) && r.total == all.len(),
        r.page == page_number(q),
        r.limit == page_limit(q),
        r.total_pages == total_pages(r.total as int, r.limit as int),
{
    let all = post_thread(msgs, post_id);
    let page: u32 = match q.page {
        Some(p) => p,
        None => DEFAULT_CHAT_PAGE,
    };
    let limit: u32 = match q.limit {
        Some(l) => l,
        None => DEFAULT_CHAT_LIMIT,
    };
    let messages = window_of(&all, q);
    proof {
        lemma_listing_fits(msgs@, all@, |x: int| msgs@[x].post_id@ == post_id@, false);
    }
    let total: u64 = all.len() as u64;
    let pages = pages_of(total, limit);
    MessagePage { messages, total, page, limit, total_pages: pages }
}

proof fn lemma_listing_fits(msgs: Seq<ChatMessage>, order: Seq<usize>, keep: spec_fn(int) -> bool, newest: bool)
    requires
        lists_by_time(msgs, keep, order, newest),
    ensures
        order.len() <= msgs.len(),
{
    let ints = order.map_values(|x: usize| x as int);
    assert(ints.no_duplicates()) by {
        assert forall|i: int, j: int| 0 <= i < ints.len() && 0 <= j < ints.len() && i != j
            implies ints[i] != ints[j] by {
            if i < j {
                assert(time_before(sent_times(msgs), order[i] as int, order[j] as int, newest));
            } else {
                assert(time_before(sent_times(msgs), order[j] as int, order[i] as int, newest));
            }
        }
    }
    ints.unique_seq_to_set();
    vstd::set_lib::lemma_int_range(0, msgs.len() as int);
    assert(ints.to_set().subset_of(vstd::set_lib::set_int_range(0, msgs.len() as int))) by {
        assert forall|x: int| ints.to_set().contains(x) implies vstd::set_lib::set_int_range(0, msgs.len() as int).contains(x) by {
            let k = choose|k: int| 0 <= k < ints.len() && ints[k] == x;
            assert(order[k] < msgs.len());
        }
    }
    vstd::set_lib::lemma_len_subset(ints.to_set(), vstd::set_lib::set_int_range(0, msgs.len() as int));
}

/// Counts up to this bound are exact in a 64-bit float, which the page
/// count of a listing is computed with.
pub const MAX_EXACT_COUNT: u64 = 0x20_0000_0000_0000;

/// The number of pages of `limit` entries that `total` entries take.
pub fn pages_of(total: u64, limit: u32) -> (p: i64)
    requires
        total < MAX_EXACT_COUNT,
    ensures
        p == total_pages(total as int, limit as int),
{
    if limit == 0 {
        if total == 0 { 0 } else { i64::MAX }
    } else {
        let q: u64 = total / (limit as u64);
        let r: u64 = total % (limit as u64);
        proof {
            let t = total as int;
            let l = limit as int;
            assert(q * l + r == t && 0 <= r < l && q <= t) by (nonlinear_arith)
                requires l >= 1, t >= 0, q == t / l, r == t % l;
            assert((if r == 0 { q as int } else { q + 1 }) == (t + l - 1) / l) by (nonlinear_arith)
                requires l >= 1, t >= 0, q * l + r == t, 0 <= r < l;
        }
        if r == 0 { q as i64 } else { (q + 1) as i64 }
    }
}

/// Page `q` of the messages a user sent or received, newest first, with
/// the number of such messages.
pub fn get_user_messages(msgs: &Vec<ChatMessage>, user_id: &str, q: PaginationQuery) -> (r: MessagePage)
    requires
        valid_page(q),
        msgs@.len() < MAX_EXACT_COUNT,
    ensures
        exists|all: Seq<usize>| lists_by_time(
            msgs@,
            |x: int| msgs@[x].sender_id@ == user_id@ || msgs@[x].receiver_id@ == user_id@,
            all,
            true,
        ) && r.messages@ == page_window(all, q) && r.total == all.len(),
        r.page == page_number(q),
        r.limit == page_limit(q),
        r.total_pages == total_pages(r.total as int, r.limit as int),
{
    let all = user_thread(msgs, user_id);
    let page: u32 = match q.page {
        Some(p) => p,
        None => DEFAULT_CHAT_PAGE,
    };
    let limit: u32 = match q.limit {
        Some(l) => l,
        None => DEFAULT_CHAT_LIMIT,
    };
    let messages = window_of(&all, q);
    proof {
        lemma_listing_fits(msgs@, all@, |x: int| msgs@[x].sender_id@ == user_id@ || msgs@[x].receiver_id@ == user_id@, true);
    }
    let total: u64 = all.len() as u64;
    let pages = pages_of(total, limit);
    MessagePage { messages, total, page, limit, total_pages: pages }
}

/// A chat request that could not be served: the HTTP status it is answered
/// with and the error text.
#[derive(Debug, Clone)]
pub struct ChatFailure {
    pub status: u16,
    pub error: String,
}

/// The failure a malformed message id is answered with.
pub open spec fn is_bad_id(f: ChatFailure) -> bool {
    f.status == 400 && f.error@ == "Invalid message ID format"@
}

/// The failure a missing message is answered with.
pub open spec fn is_missing_message(f: ChatFailure) -> bool {
    f.status == 404 && f.error@ == "Message not found"@
}

/// Checks that a message id is well formed.
pub fn check_message_id(message_id: &str) -> (r: Result<(), ChatFailure>)
    ensures
        r is Ok <==> is_object_id(message_id@),
        r matches Err(f) ==> is_bad_id(f),
{
    match check_object_id(message_id) {
        Ok(()) => Ok(()),
        Err(_) => Err(ChatFailure { status: 400, error: String::from_str("Invalid message ID format") }),
    }
}

/// Reading, editing or deleting a message by id: a malformed id is
/// refused first, then a message that is not there.
pub fn message_lookup(message_id: &str, found: bool) -> (r: Result<(), ChatFailure>)
    ensures
        r is Ok <==> (is_object_id(message_id@) && found),
        !is_object_id(message_id@) ==> (r matches Err(f) && is_bad_id(f)),
        is_object_id(message_id@) && !found ==> (r matches Err(f) && is_missing_message(f)),
{
    check_message_id(message_id)?;
    if !found {
        return Err(ChatFailure { status: 404, error: String::from_str("Message not found") });
    }
    Ok(())
}

/// The answer to a deletion that removed `deleted_count` messages.
pub fn deletion_outcome(message_id: &str, deleted_count: u64) -> (r: Result<String, ChatFailure>)
    ensures
        !is_object_id(message_id@) ==> (r matches Err(f) && is_bad_id(f)),
        is_object_id(message_id@) && deleted_count == 0 ==> (r matches Err(f) && is_missing_message(f)),
        is_object_id(message_id@) && deleted_count > 0 ==> (r matches Ok(m) && m@ == "Message deleted successfully"@),
{
    message_lookup(message_id, deleted_count > 0)?;
    Ok(String::from_str("Message deleted successfully"))
}

/// The title of the push sent to a message's receiver.
pub fn push_title(sender_name: &str) -> (t: String)
    ensures
        t@ == "💬 New message from "@ + sender_name@,
{
    concat("💬 New message from ", sender_name)
}

/// The title of the notification stored for a message's receiver.
pub fn notice_title(sender_name: &str) -> (t: String)
    ensures
        t@ == "New message from "@ + sender_name@,
{
    concat("New message from ", sender_name)
}

/// The preview a message is announced with: its first 50 bytes followed
/// by `...` when it is longer.
pub fn chat_preview(text: &str) -> (p: String)
    requires
        cuts_cleanly(text@, 50),
    ensures
        byte_len(text@) <= 50 ==> p@ == text@,
        byte_len(text@) > 50 ==> exists|k: int| 0 <= k <= text@.len() && byte_len(text@.take(k)) == 50
            && p@ == text@.take(k) + "..."@,
{
    preview_bytes(text, 50)
}

} // verus!
