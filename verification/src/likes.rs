//! Likes on posts, comments and fixtures. A liked item keeps a count and
//! the ids of the users who like it; liking twice changes nothing, and
//! unliking takes the user back out.

use vstd::prelude::*;
use crate::errors::{AppError, is_validation_error};
use crate::text::{str_eq, contains_str, views, concat};
use crate::money::{digits, push_digits};

verus! {

/// `s` with every occurrence of `u` taken out, the rest in order.
pub open spec fn remove_all(s: Seq<Seq<char>>, u: Seq<char>) -> Seq<Seq<char>>
    decreases s.len(),
{
    if s.len() == 0 {
        s
    } else if s.last() == u {
        remove_all(s.drop_last(), u)
    } else {
        remove_all(s.drop_last(), u).push(s.last())
    }
}

/// The likes of one item: how many, and by whom.
#[derive(Debug, Clone)]
pub struct LikeState {
    pub likes_count: i64,
    pub liked_by: Vec<String>,
}

/// The ids of the users who like the item.
pub open spec fn likers(s: LikeState) -> Seq<Seq<char>> {
    views(s.liked_by@)
}

impl LikeState {
    /// Records that `user` likes the item; nothing changes when they
    /// already do. The result tells whether anything changed.
    pub fn like(&mut self, user: &str) -> (changed: bool)
        requires
            old(self).likes_count < i64::MAX,
        ensures
            changed == !likers(*old(self)).contains(user@),
            !changed ==> likers(*final(self)) == likers(*old(self)) && final(self).likes_count == old(self).likes_count,
            changed ==> likers(*final(self)) == likers(*old(self)).push(user@)
                && final(self).likes_count == old(self).likes_count + 1,
    {
        let present = contains_str(&self.liked_by, user);
        proof {
            let v = likers(*self);
            if present {
                let j = choose|j: int| 0 <= j < self.liked_by@.len() && (#[trigger] self.liked_by@[j])@ == user@;
                assert(v[j] == user@);
            } else {
                if v.contains(user@) {
                    let j = choose|j: int| 0 <= j < v.len() && v[j] == user@;
                    assert(self.liked_by@[j]@ == user@);
                }
            }
        }
        if present {
            return false;
        }
        let ghost before = likers(*self);
        self.likes_count = self.likes_count + 1;
        self.liked_by.push(String::from_str(user));
        proof {
            assert(likers(*self) =~= before.push(user@));
        }
        true
    }

    /// Records that `user` no longer likes the item, taking every entry of
    /// theirs out; nothing changes when they do not like it. The result
    /// tells whether anything changed.
    pub fn unlike(&mut self, user: &str) -> (changed: bool)
        requires
            old(self).likes_count > i64::MIN,
        ensures
            changed == likers(*old(self)).contains(user@),
            !changed ==> likers(*final(self)) == likers(*old(self)) && final(self).likes_count == old(self).likes_count,
            changed ==> likers(*final(self)) == remove_all(likers(*old(self)), user@)
                && final(self).likes_count == old(self).likes_count - 1,
    {
        let present = contains_str(&self.liked_by, user);
        proof {
            let v = likers(*self);
            if present {
                let j = choose|j: int| 0 <= j < self.liked_by@.len() && (#[trigger] self.liked_by@[j])@ == user@;
                assert(v[j] == user@);
            } else {
                if v.contains(user@) {
                    let j = choose|j: int| 0 <= j < v.len() && v[j] == user@;
                    assert(self.liked_by@[j]@ == user@);
                }
            }
        }
        if !present {
            return false;
        }
        let ghost before = likers(*self);
        let mut kept: Vec<String> = Vec::new();
        let mut i: usize = 0;
        while i < self.liked_by.len()
            invariant
                i <= self.liked_by@.len(),
                before == views(self.liked_by@),
                views(kept@) == remove_all(before.take(i as int), user@),
            decreases self.liked_by.len() - i,
        {
            proof {
                assert(before.take(i + 1).drop_last() =~= before.take(i as int));
                assert(before.take(i + 1).last() == self.liked_by@[i as int]@);
            }
            if !str_eq(self.liked_by[i].as_str(), user) {
                let ghost k0 = views(kept@);
                kept.push(self.liked_by[i].clone());
                proof {
                    assert(views(kept@) =~= k0.push(self.liked_by@[i as int]@));
                }
            }
            i = i + 1;
        }
        proof {
            assert(before.take(before.len() as int) =~= before);
        }
        self.liked_by = kept;
        self.likes_count = self.likes_count - 1;
        true
    }
}

proof fn lemma_remove_absent(s: Seq<Seq<char>>, u: Seq<char>)
    requires
        !s.contains(u),
    ensures
        remove_all(s, u) == s,
    decreases s.len(),
{
    if s.len() > 0 {
        let t = s.drop_last();
        assert(!t.contains(u)) by {
            if t.contains(u) {
                let j = choose|j: int| 0 <= j < t.len() && t[j] == u;
                assert(s[j] == u);
            }
        }
        assert(s.last() != u) by {
            assert(s[s.len() - 1] == s.last());
        }
        lemma_remove_absent(t, u);
        assert(t.push(s.last()) =~= s);
    }
}

/// Liking is idempotent: after a like, the user likes the item, and a
/// second like changes nothing.
pub proof fn law_like_is_idempotent(before: LikeState, once: LikeState, u: Seq<char>)
    requires
        !likers(before).contains(u) ==> likers(once) == likers(before).push(u),
        likers(before).contains(u) ==> likers(once) == likers(before),
    ensures
        likers(once).contains(u),
{
    if !likers(before).contains(u) {
        assert(likers(once)[likers(before).len() as int] == u);
    }
}

/// Unliking undoes liking: when a user who did not like an item likes it
/// and then unlikes it, the item's likers and count are as before.
pub proof fn law_unlike_undoes_like(
    likers_before: Seq<Seq<char>>,
    count_before: int,
    likers_after: Seq<Seq<char>>,
    count_after: int,
    u: Seq<char>,
)
    requires
        !likers_before.contains(u),
        likers_after == remove_all(likers_before.push(u), u),
        count_after == (count_before + 1) - 1,
    ensures
        likers_after == likers_before,
        count_after == count_before,
{
    assert(likers_before.push(u).drop_last() =~= likers_before);
    lemma_remove_absent(likers_before, u);
}

/// What a fixture like or unlike does: the change to the like counts and
/// whether the user likes the fixture afterwards.
#[derive(Debug, Clone, Copy, PartialEq, Eq, Structural)]
pub struct LikeToggle {
    pub delta: i32,
    pub liked: bool,
}

/// A request to like or unlike a fixture in a channel.
#[derive(Debug, Clone)]
pub struct ToggleLikeRequest {
    pub fixture_id: String,
    pub channel_id: String,
    pub user_id: String,
    pub username: String,
    pub action: String,
}

/// Decides a fixture like (`action` is `like`) or unlike (any other
/// action), given whether the user already likes the fixture: liking twice
/// and unliking what is not liked are refused.
pub fn decide_toggle_like(action: &str, already_liked: bool) -> (r: Result<LikeToggle, AppError>)
    ensures
        action@ == "like"@ && already_liked ==> (r matches Err(e) && is_validation_error(e, "Already liked this fixture"@)),
        action@ == "unlike"@ && !already_liked ==> (r matches Err(e) && is_validation_error(e, "Not liked this fixture"@)),
        action@ == "like"@ && !already_liked ==> r == Ok::<LikeToggle, AppError>(LikeToggle { delta: 1i32, liked: true }),
        action@ != "like"@ && !(action@ == "unlike"@ && !already_liked)
            ==> r == Ok::<LikeToggle, AppError>(LikeToggle { delta: -1i32, liked: false }),
{
    proof {
        reveal_strlit("like");
        reveal_strlit("unlike");
        assert("like"@.len() != "unlike"@.len());
    }
    let liking = str_eq(action, "like");
    let unliking = str_eq(action, "unlike");
    if liking && already_liked {
        return Err(AppError::ValidationError(String::from_str("Already liked this fixture")));
    }
    if unliking && !already_liked {
        return Err(AppError::ValidationError(String::from_str("Not liked this fixture")));
    }
    if liking {
        Ok(LikeToggle { delta: 1, liked: true })
    } else {
        Ok(LikeToggle { delta: -1, liked: false })
    }
}

/// The notice for a like of a post: `❤️ Amina liked a post`, naming the
/// liker `Someone` when no name is given.
pub fn post_like_title(liker: &Option<String>) -> (s: String)
    ensures
        s@ == "❤️ "@ + match liker {
            Some(n) => n@,
            None => "Someone"@,
        } + " liked a post"@,
{
    let mut s = String::from_str("❤️ ");
    match liker {
        Some(n) => s.append(n.as_str()),
        None => s.append("Someone"),
    }
    s.append(" liked a post");
    s
}

/// The body of a like notice: `Now 12 people like this post`.
pub fn like_count_body(count: u64, what: &str) -> (s: String)
    ensures
        s@ == "Now "@ + digits(count as nat) + " people like this "@ + what@,
{
    let mut s = String::from_str("Now ");
    push_digits(&mut s, count);
    s.append(" people like this ");
    s.append(what);
    s
}

/// The answer to a like or unlike of a post or comment (`what` is `Post` or
/// `Comment`), by whether it was a like and whether anything changed.
pub fn like_message(what: &str, liking: bool, changed: bool) -> (s: String)
    ensures
        s@ == what@ + if liking {
            if changed { " liked successfully"@ } else { " already liked by user"@ }
        } else {
            if changed { " unliked successfully"@ } else { " not liked by user"@ }
        },
{
    if liking {
        if changed { concat(what, " liked successfully") } else { concat(what, " already liked by user") }
    } else {
        if changed { concat(what, " unliked successfully") } else { concat(what, " not liked by user") }
    }
}

} // verus!
