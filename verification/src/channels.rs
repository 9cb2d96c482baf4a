//! Channels: groups of fans who vote, chat and bet on fixtures together.
//! This module holds a channel's membership (join requests, approvals,
//! invite codes, leaving), its table, and what its admin is paid.

use vstd::prelude::*;
use crate::errors::{AppError, is_validation_error, is_invalid_object_id};
use crate::ids::{is_object_id, object_id_error_text, check_object_id, is_uuid_text};
use crate::text::{str_eq, concat, views};
use crate::likes::remove_all;
use crate::votes::MemberStats;
use crate::posts::{spec_extension, is_video_extension, media_extension, video_extension};

verus! {

fn validation(msg: &str) -> (e: AppError)
    ensures
        is_validation_error(e, msg@),
{
    AppError::ValidationError(String::from_str(msg))
}

/// A member of a channel. Times are milliseconds since the epoch.
#[derive(Debug, Clone)]
pub struct ChannelMember {
    pub user_id: String,
    pub username: String,
    pub role: String,
    pub season_points: i32,
    pub correct_votes: i32,
    pub total_votes: i32,
    pub msg_count: i32,
    pub likes_count: i32,
    pub joined_at: i64,
    pub last_active_at: Option<i64>,
}

/// A request to join a channel, waiting for its admin.
#[derive(Debug, Clone)]
pub struct PendingRequest {
    pub user_id: String,
    pub username: String,
}

/// A channel.
#[derive(Debug, Clone)]
pub struct Channel {
    pub channel_id: String,
    pub name: String,
    pub created_by: String,
    pub season: String,
    pub members: Vec<ChannelMember>,
    pub member_count: i64,
    pub invite_code: String,
    pub pending_requests: Vec<PendingRequest>,
}

/// A user named when a channel is created or members are added.
#[derive(Debug, Clone)]
pub struct NewMember {
    pub user_id: String,
    pub username: String,
}

/// The ids of a channel's members, in order.
pub open spec fn member_ids(c: Channel) -> Seq<Seq<char>> {
    c.members@.map_values(|m: ChannelMember| m.user_id@)
}

/// The ids of a channel's pending requests, in order.
pub open spec fn pending_ids(c: Channel) -> Seq<Seq<char>> {
    c.pending_requests@.map_values(|p: PendingRequest| p.user_id@)
}

/// A new member's entry: role `member`, the standing the user already has
/// (none when the user is unknown), no messages or likes yet.
pub open spec fn spec_new_member(m: ChannelMember, user_id: Seq<char>, username: Seq<char>, stats: Option<MemberStats>, now: i64) -> bool {
    &&& m.user_id@ == user_id
    &&& m.username@ == username
    &&& m.role@ == "member"@
    &&& m.season_points == (match stats { Some(s) => s.season_points, None => 0 })
    &&& m.correct_votes == (match stats { Some(s) => s.correct_votes, None => 0 })
    &&& m.total_votes == (match stats { Some(s) => s.total_votes, None => 0 })
    &&& m.msg_count == 0
    &&& m.likes_count == 0
    &&& m.joined_at == now
    &&& m.last_active_at is None
}

/// The entry of a user joining a channel.
pub fn new_member(user_id: &str, username: &str, stats: Option<MemberStats>, now: i64) -> (m: ChannelMember)
    ensures
        spec_new_member(m, user_id@, username@, stats, now),
{
    let (sp, cv, tv) = match stats {
        Some(s) => (s.season_points, s.correct_votes, s.total_votes),
        None => (0, 0, 0),
    };
    ChannelMember {
        user_id: String::from_str(user_id),
        username: String::from_str(username),
        role: String::from_str("member"),
        season_points: sp,
        correct_votes: cv,
        total_votes: tv,
        msg_count: 0,
        likes_count: 0,
        joined_at: now,
        last_active_at: None,
    }
}

/// The channel a lookup found; none reads as "not found".
pub fn found<T>(o: Option<T>) -> (r: Result<T, AppError>)
    ensures
        match o {
            Some(x) => r == Ok::<T, AppError>(x),
            None => r == Err::<T, AppError>(AppError::DocumentNotFound),
        },
{
    match o {
        Some(x) => Ok(x),
        None => Err(AppError::DocumentNotFound),
    }
}

impl Channel {
    /// Whether `user_id` is a member.
    pub fn is_member(&self, user_id: &str) -> (r: bool)
        ensures
            r == member_ids(*self).contains(user_id@),
    {
        let mut i: usize = 0;
        while i < self.members.len()
            invariant
                i <= self.members@.len(),
                forall|j: int| 0 <= j < i ==> (#[trigger] self.members@[j]).user_id@ != user_id@,
            decreases self.members.len() - i,
        {
            if str_eq(self.members[i].user_id.as_str(), user_id) {
                assert(member_ids(*self)[i as int] == user_id@);
                return true;
            }
            i = i + 1;
        }
        proof {
            if member_ids(*self).contains(user_id@) {
                let j = choose|j: int| 0 <= j < member_ids(*self).len() && member_ids(*self)[j] == user_id@;
                assert(self.members@[j].user_id@ == user_id@);
            }
        }
        false
    }

    /// Whether `user_id` has a pending join request.
    pub fn is_pending(&self, user_id: &str) -> (r: bool)
        ensures
            r == pending_ids(*self).contains(user_id@),
    {
        let mut i: usize = 0;
        while i < self.pending_requests.len()
            invariant
                i <= self.pending_requests@.len(),
                forall|j: int| 0 <= j < i ==> (#[trigger] self.pending_requests@[j]).user_id@ != user_id@,
            decreases self.pending_requests.len() - i,
        {
            if str_eq(self.pending_requests[i].user_id.as_str(), user_id) {
                assert(pending_ids(*self)[i as int] == user_id@);
                return true;
            }
            i = i + 1;
        }
        proof {
            if pending_ids(*self).contains(user_id@) {
                let j = choose|j: int| 0 <= j < pending_ids(*self).len() && pending_ids(*self)[j] == user_id@;
                assert(self.pending_requests@[j].user_id@ == user_id@);
            }
        }
        false
    }

    /// The channel's admin: its first member with role `admin`, else its
    /// creator.
    pub fn admin_id(&self) -> (r: String)
        ensures
            (exists|i: int| 0 <= i < self.members@.len() && (#[trigger] self.members@[i]).role@ == "admin"@) ==> exists|i: int|
                0 <= i < self.members@.len() && (#[trigger] self.members@[i]).role@ == "admin"@ && r@ == self.members@[i].user_id@
                && forall|j: int| 0 <= j < i ==> (#[trigger] self.members@[j]).role@ != "admin"@,
            !(exists|i: int| 0 <= i < self.members@.len() && (#[trigger] self.members@[i]).role@ == "admin"@) ==> r@ == self.created_by@,
    {
        let mut i: usize = 0;
        while i < self.members.len()
            invariant
                i <= self.members@.len(),
                forall|j: int| 0 <= j < i ==> (#[trigger] self.members@[j]).role@ != "admin"@,
            decreases self.members.len() - i,
        {
            if str_eq(self.members[i].role.as_str(), "admin") {
                return self.members[i].user_id.clone();
            }
            i = i + 1;
        }
        self.created_by.clone()
    }

    /// Files a join request for `user_id`; members and users already
    /// waiting are refused. The result is the number of pending requests.
    pub fn request_join(&mut self, user_id: &str, username: &str) -> (r: Result<usize, AppError>)
        ensures
            member_ids(*old(self)).contains(user_id@) ==> (r matches Err(e) && is_validation_error(e, "Already a member of this channel"@))
                && *final(self) == *old(self),
            !member_ids(*old(self)).contains(user_id@) && pending_ids(*old(self)).contains(user_id@)
                ==> (r matches Err(e) && is_validation_error(e, "Join request already pending"@)) && *final(self) == *old(self),
            !member_ids(*old(self)).contains(user_id@) && !pending_ids(*old(self)).contains(user_id@) ==> {
                &&& r == Ok::<usize, AppError>((old(self).pending_requests@.len() + 1) as usize)
                &&& pending_ids(*final(self)) == pending_ids(*old(self)).push(user_id@)
                &&& final(self).members == old(self).members
                &&& final(self).member_count == old(self).member_count
            },
    {
        if self.is_member(user_id) {
            return Err(validation("Already a member of this channel"));
        }
        if self.is_pending(user_id) {
            return Err(validation("Join request already pending"));
        }
        let ghost before = pending_ids(*self);
        self.pending_requests.push(PendingRequest { user_id: String::from_str(user_id), username: String::from_str(username) });
        proof {
            assert(pending_ids(*self) =~= before.push(user_id@));
        }
        Ok(self.pending_requests.len())
    }

    fn drop_pending(&mut self, user_id: &str)
        ensures
            pending_ids(*final(self)) == remove_all(pending_ids(*old(self)), user_id@),
            final(self).members == old(self).members,
            final(self).member_count == old(self).member_count,
            final(self).channel_id == old(self).channel_id,
    {
        let ghost before = pending_ids(*self);
        let mut kept: Vec<PendingRequest> = Vec::new();
        let mut i: usize = 0;
        while i < self.pending_requests.len()
            invariant
                i <= self.pending_requests@.len(),
                before == pending_ids(*self),
                kept@.map_values(|p: PendingRequest| p.user_id@) == remove_all(before.take(i as int), user_id@),
            decreases self.pending_requests.len() - i,
        {
            proof {
                assert(before.take(i + 1).drop_last() =~= before.take(i as int));
                assert(before.take(i + 1).last() == self.pending_requests@[i as int].user_id@);
            }
            if !str_eq(self.pending_requests[i].user_id.as_str(), user_id) {
                let ghost k0 = kept@.map_values(|p: PendingRequest| p.user_id@);
                kept.push(self.pending_requests[i].clone_request());
                proof {
                    assert(kept@.map_values(|p: PendingRequest| p.user_id@) =~= k0.push(self.pending_requests@[i as int].user_id@));
                }
            }
            i = i + 1;
        }
        proof {
            assert(before.take(before.len() as int) =~= before);
        }
        self.pending_requests = kept;
    }

    /// Turns down the join request of `user_id`: it is taken out when there
    /// is one, and the request is "not found" otherwise.
    pub fn reject_join(&mut self, user_id: &str) -> (r: Result<(), AppError>)
        ensures
            !pending_ids(*old(self)).contains(user_id@) ==> r == Err::<(), AppError>(AppError::DocumentNotFound)
                && *final(self) == *old(self),
            pending_ids(*old(self)).contains(user_id@) ==> r is Ok
                && pending_ids(*final(self)) == remove_all(pending_ids(*old(self)), user_id@)
                && final(self).members == old(self).members
                && final(self).member_count == old(self).member_count,
    {
        if !self.is_pending(user_id) {
            return Err(AppError::DocumentNotFound);
        }
        self.drop_pending(user_id);
        Ok(())
    }

    /// Admits `user_id`: any join request of theirs is taken out and they
    /// are added as a member with the standing the user already has. The id
    /// must be a well-formed object id.
    pub fn approve_join(&mut self, user_id: &str, username: &str, stats: Option<MemberStats>, now: i64) -> (r: Result<(), AppError>)
        requires
            old(self).member_count < i64::MAX,
        ensures
            !is_object_id(user_id@) ==> (r matches Err(e) && is_invalid_object_id(e, object_id_error_text(user_id@)))
                && *final(self) == *old(self),
            is_object_id(user_id@) ==> {
                &&& r is Ok
                &&& pending_ids(*final(self)) == remove_all(pending_ids(*old(self)), user_id@)
                &&& final(self).members@.len() == old(self).members@.len() + 1
                &&& final(self).members@.drop_last() == old(self).members@
                &&& spec_new_member(final(self).members@.last(), user_id@, username@, stats, now)
                &&& final(self).member_count == old(self).member_count + 1
            },
    {
        match check_object_id(user_id) {
            Err(e) => return Err(e),
            Ok(()) => {},
        }
        self.drop_pending(user_id);
        let ghost before = self.members@;
        self.members.push(new_member(user_id, username, stats, now));
        proof {
            assert(self.members@.drop_last() =~= before);
        }
        self.member_count = self.member_count + 1;
        Ok(())
    }

    /// Takes `user_id` out of the channel. The store only does this when the
    /// user is a member and no member of the channel has role `admin` (the
    /// role condition is matched against every member); every entry of the
    /// user is then taken out and the count lowered by one. Otherwise the
    /// request is refused.
    pub fn leave(&mut self, user_id: &str) -> (r: Result<(), AppError>)
        requires
            old(self).member_count > i64::MIN,
        ensures
            !(member_ids(*old(self)).contains(user_id@) && !has_admin(*old(self))) ==> (r matches Err(e)
                && is_validation_error(e, "Cannot leave. Either not a member, or you are the admin"@)) && *final(self) == *old(self),
            member_ids(*old(self)).contains(user_id@) && !has_admin(*old(self)) ==> {
                &&& r is Ok
                &&& member_ids(*final(self)) == remove_all(member_ids(*old(self)), user_id@)
                &&& final(self).member_count == old(self).member_count - 1
                &&& final(self).pending_requests == old(self).pending_requests
            },
    {
        let admin = self.has_admin_role();
        if !self.is_member(user_id) || admin {
            return Err(validation("Cannot leave. Either not a member, or you are the admin"));
        }
        let ghost before = member_ids(*self);
        let mut kept: Vec<ChannelMember> = Vec::new();
        let mut i: usize = 0;
        while i < self.members.len()
            invariant
                i <= self.members@.len(),
                before == member_ids(*self),
                kept@.map_values(|m: ChannelMember| m.user_id@) == remove_all(before.take(i as int), user_id@),
            decreases self.members.len() - i,
        {
            proof {
                assert(before.take(i + 1).drop_last() =~= before.take(i as int));
                assert(before.take(i + 1).last() == self.members@[i as int].user_id@);
            }
            if !str_eq(self.members[i].user_id.as_str(), user_id) {
                let ghost k0 = kept@.map_values(|m: ChannelMember| m.user_id@);
                kept.push(self.members[i].clone_member());
                proof {
                    assert(kept@.map_values(|m: ChannelMember| m.user_id@) =~= k0.push(self.members@[i as int].user_id@));
                }
            }
            i = i + 1;
        }
        proof {
            assert(before.take(before.len() as int) =~= before);
        }
        self.members = kept;
        self.member_count = self.member_count - 1;
        Ok(())
    }

    fn has_admin_role(&self) -> (r: bool)
        ensures
            r == has_admin(*self),
    {
        let mut i: usize = 0;
        while i < self.members.len()
            invariant
                i <= self.members@.len(),
                forall|j: int| 0 <= j < i ==> (#[trigger] self.members@[j]).role@ != "admin"@,
            decreases self.members.len() - i,
        {
            if str_eq(self.members[i].role.as_str(), "admin") {
                return true;
            }
            i = i + 1;
        }
        false
    }

    /// Adds a member who joined with the channel's invite code.
    pub fn add_member(&mut self, m: ChannelMember)
        requires
            old(self).member_count < i64::MAX,
        ensures
            final(self).members@ == old(self).members@.push(m),
            final(self).member_count == old(self).member_count + 1,
            final(self).pending_requests == old(self).pending_requests,
    {
        self.members.push(m);
        self.member_count = self.member_count + 1;
    }

    /// Adds the named users whose ids are well-formed object ids (others are
    /// skipped), each with the standing looked up for them, and raises the
    /// count by the number added, which is the result.
    pub fn add_members(&mut self, new: &Vec<NewMember>, stats: &Vec<Option<MemberStats>>, now: i64) -> (added: usize)
        requires
            new@.len() == stats@.len(),
            old(self).member_count + new@.len() <= i64::MAX,
        ensures
            final(self).members@.len() == old(self).members@.len() + added,
            final(self).members@.take(old(self).members@.len() as int) == old(self).members@,
            final(self).member_count == old(self).member_count + added,
            added == count_well_formed(new@),
            final(self).pending_requests == old(self).pending_requests,
    {
        let ghost start = self.members@;
        let mut added: usize = 0;
        let mut i: usize = 0;
        while i < new.len()
            invariant
                new@.len() == stats@.len(),
                i <= new@.len(),
                added == count_well_formed(new@.take(i as int)),
                added <= i,
                self.members@.len() == start.len() + added,
                self.members@.take(start.len() as int) == start,
                self.member_count == old(self).member_count + added,
                old(self).member_count + new@.len() <= i64::MAX,
                self.pending_requests == old(self).pending_requests,
            decreases new.len() - i,
        {
            proof {
                assert(new@.take(i + 1).drop_last() =~= new@.take(i as int));
                assert(new@.take(i + 1).last() == new@[i as int]);
            }
            if check_object_id(new[i].user_id.as_str()).is_ok() {
                let ghost before = self.members@;
                self.members.push(new_member(new[i].user_id.as_str(), new[i].username.as_str(), stats[i], now));
                proof {
                    assert(self.members@.take(start.len() as int) =~= before.take(start.len() as int));
                }
                self.member_count = self.member_count + 1;
                added = added + 1;
            }
            i = i + 1;
        }
        proof {
            assert(new@.take(new@.len() as int) =~= new@);
        }
        added
    }
}

/// Some member of the channel has role `admin`.
pub open spec fn has_admin(c: Channel) -> bool {
    exists|i: int| 0 <= i < c.members@.len() && (#[trigger] c.members@[i]).role@ == "admin"@
}

/// How many of the named users have well-formed ids.
pub open spec fn count_well_formed(s: Seq<NewMember>) -> nat
    decreases s.len(),
{
    if s.len() == 0 {
        0
    } else {
        count_well_formed(s.drop_last()) + if is_object_id(s.last().user_id@) { 1nat } else { 0nat }
    }
}

impl PendingRequest {
    /// A field-by-field copy.
    pub fn clone_request(&self) -> (r: PendingRequest)
        ensures
            r == *self,
    {
        PendingRequest { user_id: self.user_id.clone(), username: self.username.clone() }
    }
}

impl ChannelMember {
    /// A field-by-field copy.
    pub fn clone_member(&self) -> (r: ChannelMember)
        ensures
            r == *self,
    {
        ChannelMember {
            user_id: self.user_id.clone(),
            username: self.username.clone(),
            role: self.role.clone(),
            season_points: self.season_points,
            correct_votes: self.correct_votes,
            total_votes: self.total_votes,
            msg_count: self.msg_count,
            likes_count: self.likes_count,
            joined_at: self.joined_at,
            last_active_at: self.last_active_at,
        }
    }
}

/// A request followed by its rejection leaves the waiting list as it was:
/// when a user who is not waiting asks to join and is turned down, the
/// pending requests name the same users in the same order.
pub proof fn law_reject_undoes_request(before: Seq<Seq<char>>, after: Seq<Seq<char>>, u: Seq<char>)
    requires
        !before.contains(u),
        after == remove_all(before.push(u), u),
    ensures
        after == before,
{
    crate::likes::law_unlike_undoes_like(before, 0, after, 0, u);
}

/// The answer to joining by invite code, in the order the checks are made:
/// a channel with that code, a user who is not yet a member, and a
/// well-formed user id.
pub fn decide_join_by_code(channel: &Option<Channel>, user_id: &str) -> (r: Result<(), AppError>)
    ensures
        channel is None ==> (r matches Err(e) && is_validation_error(e, "Invalid invite code"@)),
        channel matches Some(c) && member_ids(*c).contains(user_id@)
            ==> (r matches Err(e) && is_validation_error(e, "Already a member of this channel"@)),
        channel matches Some(c) && !member_ids(*c).contains(user_id@) && !is_object_id(user_id@)
            ==> (r matches Err(e) && is_invalid_object_id(e, object_id_error_text(user_id@))),
        channel matches Some(c) && !member_ids(*c).contains(user_id@) && is_object_id(user_id@) ==> r is Ok,
{
    let c = match channel {
        None => return Err(validation("Invalid invite code")),
        Some(c) => c,
    };
    if c.is_member(user_id) {
        return Err(validation("Already a member of this channel"));
    }
    check_object_id(user_id)
}

/// Checks that a message's sender may post in the channel (`None`: no such
/// channel).
pub fn check_sender(channel: &Option<Channel>, user_id: &str) -> (r: Result<(), AppError>)
    ensures
        channel is None ==> r == Err::<(), AppError>(AppError::DocumentNotFound),
        channel matches Some(c) && !member_ids(*c).contains(user_id@)
            ==> (r matches Err(e) && is_validation_error(e, "User is not a member of this channel"@)),
        channel matches Some(c) && member_ids(*c).contains(user_id@) ==> r is Ok,
{
    match channel {
        None => Err(AppError::DocumentNotFound),
        Some(c) => if c.is_member(user_id) {
            Ok(())
        } else {
            Err(validation("User is not a member of this channel"))
        },
    }
}

/// Member `a` is ranked above member `b` (both indices into `m`): more
/// season points, or as many and listed earlier.
pub open spec fn ranks_before(m: Seq<ChannelMember>, a: int, b: int) -> bool {
    m[a].season_points > m[b].season_points || (m[a].season_points == m[b].season_points && a < b)
}

/// `order` lists every member index exactly once, best ranked first.
pub open spec fn is_table_order(m: Seq<ChannelMember>, order: Seq<usize>) -> bool {
    &&& order.len() == m.len()
    &&& forall|i: int| 0 <= i < order.len() ==> (#[trigger] order[i]) < m.len()
    &&& forall|i: int, j: int| 0 <= i < j < order.len() ==> ranks_before(m, #[trigger] order[i] as int, #[trigger] order[j] as int)
}

/// The channel's table: the indices of its members from most season points
/// to fewest, members with equal points in the order they are listed. The
/// member at position `k` has rank `k + 1`.
pub fn table_order(members: &Vec<ChannelMember>) -> (order: Vec<usize>)
    ensures
        is_table_order(members@, order@),
{
    let mut order: Vec<usize> = Vec::new();
    let mut k: usize = 0;
    while k < members.len()
        invariant
            k <= members@.len(),
            order@.len() == k,
            forall|i: int| 0 <= i < order@.len() ==> (#[trigger] order@[i]) < k,
            forall|i: int, j: int| 0 <= i < j < order@.len() ==> ranks_before(members@, #[trigger] order@[i] as int, #[trigger] order@[j] as int),
        decreases members.len() - k,
    {
        let pts = members[k].season_points;
        let mut p: usize = 0;
        while p < order.len() && members[order[p]].season_points >= pts
            invariant
                p <= order@.len(),
                k < members@.len(),
                pts == members@[k as int].season_points,
                forall|i: int| 0 <= i < order@.len() ==> (#[trigger] order@[i]) < k,
                forall|q: int| 0 <= q < p ==> members@[#[trigger] order@[q] as int].season_points >= pts,
            decreases order.len() - p,
        {
            p = p + 1;
        }
        let ghost old_order = order@;
        order.insert(p, k);
        proof {
            assert forall|i: int| 0 <= i < order@.len() implies (#[trigger] order@[i]) < k + 1 by {
                if i < p { assert(order@[i] == old_order[i]); }
                else if i > p { assert(order@[i] == old_order[i - 1]); }
            }
            assert forall|i: int, j: int| 0 <= i < j < order@.len() implies ranks_before(members@, #[trigger] order@[i] as int, #[trigger] order@[j] as int) by {
                if j < p {
                    assert(order@[i] == old_order[i] && order@[j] == old_order[j]);
                } else if j == p {
                    assert(order@[i] == old_order[i]);
                    assert(members@[old_order[i] as int].season_points >= pts);
                } else if i == p {
                    assert(order@[j] == old_order[j - 1]);
                    // the element right after the insertion point has fewer points,
                    // and everything after it has no more than that
                    assert(p < old_order.len());
                    assert(members@[old_order[p as int] as int].season_points < pts);
                    if j - 1 > p {
                        assert(ranks_before(members@, old_order[p as int] as int, old_order[j - 1] as int));
                    }
                } else if i < p {
                    assert(order@[i] == old_order[i] && order@[j] == old_order[j - 1]);
                } else {
                    assert(order@[i] == old_order[i - 1] && order@[j] == old_order[j - 1]);
                }
            }
        }
        k = k + 1;
    }
    order
}

/// The shillings an admin earns per new vote in the channel.
pub const KES_PER_VOTE: i64 = 10;

/// The shillings an admin earns per new message in the channel.
pub const KES_PER_MESSAGE: i64 = 1;

/// The shillings of an admin's first payout.
pub const SIGNUP_BONUS: i64 = 100;

/// The votes cast over a channel's members.
pub open spec fn total_votes_of(m: Seq<ChannelMember>) -> int
    decreases m.len(),
{
    if m.len() == 0 { 0 } else { total_votes_of(m.drop_last()) + m.last().total_votes }
}

/// The messages sent over a channel's members.
pub open spec fn total_messages_of(m: Seq<ChannelMember>) -> int
    decreases m.len(),
{
    if m.len() == 0 { 0 } else { total_messages_of(m.drop_last()) + m.last().msg_count }
}

/// The kind of an admin payout.
#[derive(Debug, Clone, Copy, PartialEq, Eq, Structural)]
pub enum PayoutType {
    SignupBonus,
    EngagementRate,
}

/// The name a payout kind is stored under.
pub fn payout_type_name(t: PayoutType) -> (r: &'static str)
    ensures
        r@ == match t {
            PayoutType::SignupBonus => "signup_bonus"@,
            PayoutType::EngagementRate => "engagement_rate"@,
        },
{
    proof {
        reveal_strlit("signup_bonus");
        reveal_strlit("engagement_rate");
    }
    match t {
        PayoutType::SignupBonus => "signup_bonus",
        PayoutType::EngagementRate => "engagement_rate",
    }
}

/// A payout owed to a channel's admin: who, how much (in cents), of what
/// kind, and the channel's vote and message totals it was computed at.
#[derive(Debug, Clone)]
pub struct Payout {
    pub user_id: String,
    pub amount: i128,
    pub payout_type: PayoutType,
    pub votes_at_payout: i128,
    pub messages_at_payout: i128,
}

/// The totals the channel's previous payout was computed at (`None` when it
/// did not record them).
#[derive(Debug, Clone, Copy, PartialEq, Eq, Structural)]
pub struct PreviousPayout {
    pub votes_at_payout: Option<i64>,
    pub messages_at_payout: Option<i64>,
}

/// The amount, in cents, of the payout after `prev`: the signup bonus the
/// first time; afterwards 10 shillings per vote and 1 per message added
/// since the previous payout (a drop counts as none).
pub open spec fn spec_payout_amount(prev: Option<PreviousPayout>, votes: int, messages: int) -> int {
    match prev {
        None => SIGNUP_BONUS * 100,
        Some(p) => {
            let pv = match p.votes_at_payout { Some(v) => v as int, None => 0 };
            let pm = match p.messages_at_payout { Some(v) => v as int, None => 0 };
            let dv = if votes - pv > 0 { votes - pv } else { 0 };
            let dm = if messages - pm > 0 { messages - pm } else { 0 };
            dv * KES_PER_VOTE * 100 + dm * KES_PER_MESSAGE * 100
        },
    }
}

proof fn lemma_totals_bound(m: Seq<ChannelMember>)
    ensures
        -(m.len() * 0x8000_0000) <= total_votes_of(m) <= m.len() * 0x8000_0000,
        -(m.len() * 0x8000_0000) <= total_messages_of(m) <= m.len() * 0x8000_0000,
    decreases m.len(),
{
    if m.len() > 0 {
        lemma_totals_bound(m.drop_last());
        let n = m.len() as int;
        assert((n - 1) * 0x8000_0000 + 0x8000_0000 == n * 0x8000_0000)
            by (nonlinear_arith);
    }
}

/// Totals of the channel's votes and messages.
pub fn channel_totals(members: &Vec<ChannelMember>) -> (r: (i128, i128))
    ensures
        r.0 == total_votes_of(members@),
        r.1 == total_messages_of(members@),
{
    let mut votes: i128 = 0;
    let mut msgs: i128 = 0;
    let mut i: usize = 0;
    while i < members.len()
        invariant
            i <= members@.len(),
            votes == total_votes_of(members@.take(i as int)),
            msgs == total_messages_of(members@.take(i as int)),
        decreases members.len() - i,
    {
        proof {
            let t = members@.take(i + 1);
            assert(t.drop_last() =~= members@.take(i as int));
            lemma_totals_bound(t);
            let n = t.len() as int;
            assert(n * 0x8000_0000 <= 0xffff_ffff_ffff_ffff * 0x8000_0000)
                by (nonlinear_arith)
                requires n <= 0xffff_ffff_ffff_ffff;
        }
        votes = votes + members[i].total_votes as i128;
        msgs = msgs + members[i].msg_count as i128;
        i = i + 1;
    }
    proof {
        assert(members@.take(members@.len() as int) =~= members@);
    }
    (votes, msgs)
}

/// The payout a channel's admin is owed, given the channel's previous
/// payout (`None`: there was none).
pub fn compute_payout(channel: &Channel, prev: Option<PreviousPayout>) -> (p: Payout)
    ensures
        p.votes_at_payout == total_votes_of(channel.members@),
        p.messages_at_payout == total_messages_of(channel.members@),
        p.amount == spec_payout_amount(prev, p.votes_at_payout as int, p.messages_at_payout as int),
        p.payout_type == (if prev is None { PayoutType::SignupBonus } else { PayoutType::EngagementRate }),
        (exists|i: int| 0 <= i < channel.members@.len() && (#[trigger] channel.members@[i]).role@ == "admin"@) ==> exists|i: int|
            0 <= i < channel.members@.len() && (#[trigger] channel.members@[i]).role@ == "admin"@ && p.user_id@ == channel.members@[i].user_id@
            && forall|j: int| 0 <= j < i ==> (#[trigger] channel.members@[j]).role@ != "admin"@,
        !(exists|i: int| 0 <= i < channel.members@.len() && (#[trigger] channel.members@[i]).role@ == "admin"@) ==> p.user_id@ == channel.created_by@,
{
    let (votes, msgs) = channel_totals(&channel.members);
    let count = channel.members.len();
    proof {
        lemma_totals_bound(channel.members@);
        let n = channel.members@.len() as int;
        assert(n * 0x8000_0000 <= 0xffff_ffff_ffff_ffff * 0x8000_0000)
            by (nonlinear_arith)
            requires n <= 0xffff_ffff_ffff_ffff;
    }
    let (amount, kind) = match prev {
        None => (SIGNUP_BONUS as i128 * 100, PayoutType::SignupBonus),
        Some(p) => {
            let pv: i128 = match p.votes_at_payout { Some(v) => v as i128, None => 0 };
            let pm: i128 = match p.messages_at_payout { Some(v) => v as i128, None => 0 };
            let dv: i128 = if votes - pv > 0 { votes - pv } else { 0 };
            let dm: i128 = if msgs - pm > 0 { msgs - pm } else { 0 };
            (dv * 1000 + dm * 100, PayoutType::EngagementRate)
        },
    };
    Payout {
        user_id: channel.admin_id(),
        amount,
        payout_type: kind,
        votes_at_payout: votes,
        messages_at_payout: msgs,
    }
}

/// An admin's first payout is the signup bonus, and later payouts are never
/// negative: engagement only ever earns.
pub proof fn law_payouts_never_negative(prev: Option<PreviousPayout>, votes: int, messages: int)
    ensures
        prev is None ==> spec_payout_amount(prev, votes, messages) == 10000,
        spec_payout_amount(prev, votes, messages) >= 0,
{
    match prev {
        None => {},
        Some(p) => {
            let pv = match p.votes_at_payout { Some(v) => v as int, None => 0 };
            let pm = match p.messages_at_payout { Some(v) => v as int, None => 0 };
            let dv = if votes - pv > 0 { votes - pv } else { 0 };
            let dm = if messages - pm > 0 { messages - pm } else { 0 };
            assert(dv * 1000 >= 0 && dm * 100 >= 0) by (nonlinear_arith) requires dv >= 0, dm >= 0;
        },
    }
}

/// The previous payout recorded at `votes` votes and `messages` messages.
pub open spec fn recorded_at(votes: i64, messages: i64) -> PreviousPayout {
    PreviousPayout { votes_at_payout: Some(votes), messages_at_payout: Some(messages) }
}

/// Only engagement since the last payout is paid: after a payout recorded
/// at `pv` votes and `pm` messages, totals of `votes` and `messages` earn
/// 1000 cents per vote above `pv` and 100 cents per message above `pm`
/// (totals that fell earn nothing); with nothing new the payout is 0, one
/// more message adds exactly 100 cents, and adding the same counts to the
/// totals and to the recorded ones leaves the payout unchanged.
pub proof fn law_payout_pays_new_engagement(pv: i64, pm: i64, votes: int, messages: int, qv: i64, qm: i64)
    ensures
        spec_payout_amount(Some(recorded_at(pv, pm)), votes, messages)
            == 1000 * (if votes > pv { votes - pv } else { 0 }) + 100 * (if messages > pm { messages - pm } else { 0 }),
        spec_payout_amount(Some(recorded_at(pv, pm)), pv as int, pm as int) == 0,
        messages >= pm ==> spec_payout_amount(Some(recorded_at(pv, pm)), votes, messages + 1)
            == spec_payout_amount(Some(recorded_at(pv, pm)), votes, messages) + 100,
        spec_payout_amount(Some(recorded_at(qv, qm)), votes + (qv - pv), messages + (qm - pm))
            == spec_payout_amount(Some(recorded_at(pv, pm)), votes, messages),
        spec_payout_amount(Some(PreviousPayout { votes_at_payout: None, messages_at_payout: None }), votes, messages)
            == spec_payout_amount(Some(recorded_at(0, 0)), votes, messages),
{
}

/// A channel's totals add up over its members: a lone member contributes
/// its own votes and messages, and the totals of two groups of members
/// together are the sums of their totals.
pub proof fn law_totals_add_up(a: Seq<ChannelMember>, b: Seq<ChannelMember>, x: ChannelMember)
    ensures
        total_votes_of(seq![x]) == x.total_votes,
        total_messages_of(seq![x]) == x.msg_count,
        total_votes_of(a + b) == total_votes_of(a) + total_votes_of(b),
        total_messages_of(a + b) == total_messages_of(a) + total_messages_of(b),
    decreases b.len(),
{
    let none = Seq::<ChannelMember>::empty();
    assert(seq![x].drop_last() =~= none);
    assert(total_votes_of(none) == 0 && total_messages_of(none) == 0);
    assert(seq![x].last() == x);
    if b.len() == 0 {
        assert(a + b =~= a);
    } else {
        assert((a + b).drop_last() =~= a + b.drop_last());
        assert((a + b).last() == b.last());
        law_totals_add_up(a, b.drop_last(), x);
    }
}

/// The upper-case form of an ASCII character.
pub open spec fn ascii_upper_char(c: char) -> char {
    if 'a' <= c && c <= 'z' { ((c as u32) - 32) as char } else { c }
}

fn upper_char(c: char) -> (r: char)
    ensures
        r == ascii_upper_char(c),
{
    if 'a' <= c && c <= 'z' {
        proof {
            assert((c as u32) - 32 < 0xD800);
        }
        ((c as u32 - 32) as u8) as char
    } else {
        c
    }
}

/// A channel's invite code: the first six characters of a fresh UUID's
/// text, in upper case.
pub fn invite_code_of(uuid_text: &str) -> (code: String)
    requires
        is_uuid_text(uuid_text@),
    ensures
        code@ == uuid_text@.take(6).map_values(|c: char| ascii_upper_char(c)),
        code@.len() == 6,
{
    let mut code = String::new();
    let mut i: usize = 0;
    while i < 6
        invariant
            i <= 6,
            uuid_text@.len() == 36,
            code@ == uuid_text@.take(i as int).map_values(|c: char| ascii_upper_char(c)),
        decreases 6 - i,
    {
        let c = uuid_text.get_char(i);
        code.push(upper_char(c));
        proof {
            assert(code@ =~= uuid_text@.take(i + 1).map_values(|c: char| ascii_upper_char(c)));
        }
        i = i + 1;
    }
    code
}

/// A fresh channel id and invite code, drawn from two fresh UUIDs.
pub fn fresh_channel_keys() -> (r: (String, String))
    ensures
        is_uuid_text(r.0@),
        r.1@.len() == 6,
        exists|u: Seq<char>| is_uuid_text(u) && r.1@ == u.take(6).map_values(|c: char| ascii_upper_char(c)),
{
    let id = crate::ids::new_uuid();
    let u = crate::ids::new_uuid();
    let code = invite_code_of(u.as_str());
    (id, code)
}

/// A request to create a channel.
#[derive(Debug, Clone)]
pub struct CreateChannelRequest {
    pub name: String,
    pub created_by: String,
    pub created_by_username: String,
    pub season: String,
    pub members: Option<Vec<NewMember>>,
}

/// The users named at a channel's creation who join it as members, in
/// order: each named user other than the creator, with the standing looked
/// up for them.
pub open spec fn named_entries(
    v: Seq<NewMember>,
    stats: Seq<Option<MemberStats>>,
    creator: Seq<char>,
) -> Seq<(Seq<char>, Seq<char>, Option<MemberStats>)>
    decreases v.len(),
{
    if v.len() == 0 || stats.len() == 0 {
        Seq::empty()
    } else {
        let rest = named_entries(v.drop_last(), stats.drop_last(), creator);
        if v.last().user_id@ != creator {
            rest.push((v.last().user_id@, v.last().username@, stats.last()))
        } else {
            rest
        }
    }
}

/// The members a new channel starts with: its creator as `admin`, then each
/// named user other than the creator as a `member` with the standing looked
/// up for them (`stats` lines up with the named users), in the order named.
pub fn initial_members(req: &CreateChannelRequest, stats: &Vec<Option<MemberStats>>, now: i64) -> (m: Vec<ChannelMember>)
    requires
        req.members matches Some(v) ==> v@.len() == stats@.len(),
    ensures
        m@.len() >= 1,
        m@[0].user_id@ == req.created_by@,
        m@[0].username@ == req.created_by_username@,
        m@[0].role@ == "admin"@,
        m@[0].season_points == 0 && m@[0].correct_votes == 0 && m@[0].total_votes == 0,
        m@[0].msg_count == 0 && m@[0].likes_count == 0,
        m@[0].joined_at == now && m@[0].last_active_at is None,
        req.members is None ==> m@.len() == 1,
        req.members matches Some(v) ==> {
            let e = named_entries(v@, stats@, req.created_by@);
            &&& m@.len() == 1 + e.len()
            &&& forall|k: int| 0 <= k < e.len() ==> spec_new_member(#[trigger] m@[k + 1], e[k].0, e[k].1, e[k].2, now)
        },
{
    let mut m: Vec<ChannelMember> = Vec::new();
    m.push(ChannelMember {
        user_id: req.created_by.clone(),
        username: req.created_by_username.clone(),
        role: String::from_str("admin"),
        season_points: 0,
        correct_votes: 0,
        total_votes: 0,
        msg_count: 0,
        likes_count: 0,
        joined_at: now,
        last_active_at: None,
    });
    match &req.members {
        None => {},
        Some(v) => {
            let mut i: usize = 0;
            while i < v.len()
                invariant
                    v@.len() == stats@.len(),
                    i <= v@.len(),
                    m@.len() >= 1,
                    m@[0].user_id@ == req.created_by@,
                    m@[0].username@ == req.created_by_username@,
                    m@[0].role@ == "admin"@,
                    m@[0].season_points == 0 && m@[0].correct_votes == 0 && m@[0].total_votes == 0,
                    m@[0].msg_count == 0 && m@[0].likes_count == 0,
                    m@[0].joined_at == now && m@[0].last_active_at is None,
                    m@.len() == 1 + named_entries(v@.take(i as int), stats@.take(i as int), req.created_by@).len(),
                    forall|k: int| 0 <= k < m@.len() - 1 ==> {
                        let e = named_entries(v@.take(i as int), stats@.take(i as int), req.created_by@);
                        spec_new_member(#[trigger] m@[k + 1], e[k].0, e[k].1, e[k].2, now)
                    },
                decreases v.len() - i,
            {
                proof {
                    assert(v@.take(i + 1).drop_last() =~= v@.take(i as int));
                    assert(v@.take(i + 1).last() == v@[i as int]);
                    assert(stats@.take(i + 1).drop_last() =~= stats@.take(i as int));
                    assert(stats@.take(i + 1).last() == stats@[i as int]);
                }
                let ghost before = m@;
                if !str_eq(v[i].user_id.as_str(), req.created_by.as_str()) {
                    m.push(new_member(v[i].user_id.as_str(), v[i].username.as_str(), stats[i], now));
                    proof {
                        let e0 = named_entries(v@.take(i as int), stats@.take(i as int), req.created_by@);
                        let e1 = named_entries(v@.take(i + 1), stats@.take(i + 1), req.created_by@);
                        assert(e1 == e0.push((v@[i as int].user_id@, v@[i as int].username@, stats@[i as int])));
                        assert forall|k: int| 0 <= k < m@.len() - 1 implies spec_new_member(#[trigger] m@[k + 1], e1[k].0, e1[k].1, e1[k].2, now) by {
                            if k < e0.len() {
                                assert(m@[k + 1] == before[k + 1]);
                                assert(e1[k] == e0[k]);
                            }
                        }
                    }
                } else {
                    proof {
                        let e0 = named_entries(v@.take(i as int), stats@.take(i as int), req.created_by@);
                        let e1 = named_entries(v@.take(i + 1), stats@.take(i + 1), req.created_by@);
                        assert(e1 == e0);
                    }
                }
                i = i + 1;
            }
            proof {
                assert(v@.take(v@.len() as int) =~= v@);
                assert(stats@.take(stats@.len() as int) =~= stats@);
            }
        },
    }
    m
}

/// Counts of a channel's members over a reward period starting at `start`
/// (milliseconds): active members (seen since the start), voting members
/// (active and with at least one vote), members eligible for retention
/// (joined before the start) and retained members (eligible and active).
#[derive(Debug, Clone, Copy, PartialEq, Eq, Structural)]
pub struct RewardCounts {
    pub member_count: i64,
    pub active: u64,
    pub voting: u64,
    pub eligible: u64,
    pub retained: u64,
    pub net_member_growth: i64,
}

/// A member seen since `start`.
pub open spec fn active_since(m: ChannelMember, start: i64) -> bool {
    m.last_active_at matches Some(t) && t >= start
}

/// How many of `m` satisfy `p`.
pub open spec fn count_members(m: Seq<ChannelMember>, p: spec_fn(ChannelMember) -> bool) -> nat
    decreases m.len(),
{
    if m.len() == 0 { 0 } else { count_members(m.drop_last(), p) + if p(m.last()) { 1nat } else { 0nat } }
}

/// The counts a channel's admin reward is scored on, over the period from
/// `start`, with `joined` and `left` membership events in the period. The
/// member count is taken as at least 1.
pub fn reward_counts(channel: &Channel, start: i64, joined: i32, left: i32) -> (r: RewardCounts)
    ensures
        r.member_count == (if channel.member_count < 1 { 1 } else { channel.member_count }),
        r.active == count_members(channel.members@, |m: ChannelMember| active_since(m, start)),
        r.voting == count_members(channel.members@, |m: ChannelMember| m.total_votes > 0 && active_since(m, start)),
        r.eligible == count_members(channel.members@, |m: ChannelMember| m.joined_at < start),
        r.retained == count_members(channel.members@, |m: ChannelMember| m.joined_at < start && active_since(m, start)),
        r.net_member_growth == joined - left,
{
    let ghost pa = |m: ChannelMember| active_since(m, start);
    let ghost pv = |m: ChannelMember| m.total_votes > 0 && active_since(m, start);
    let ghost pe = |m: ChannelMember| m.joined_at < start;
    let ghost pr = |m: ChannelMember| m.joined_at < start && active_since(m, start);
    let mut active: u64 = 0;
    let mut voting: u64 = 0;
    let mut eligible: u64 = 0;
    let mut retained: u64 = 0;
    let mut i: usize = 0;
    while i < channel.members.len()
        invariant
            i <= channel.members@.len(),
            pa == (|m: ChannelMember| active_since(m, start)),
            pv == (|m: ChannelMember| m.total_votes > 0 && active_since(m, start)),
            pe == (|m: ChannelMember| m.joined_at < start),
            pr == (|m: ChannelMember| m.joined_at < start && active_since(m, start)),
            active == count_members(channel.members@.take(i as int), pa),
            voting == count_members(channel.members@.take(i as int), pv),
            eligible == count_members(channel.members@.take(i as int), pe),
            retained == count_members(channel.members@.take(i as int), pr),
            active <= i && voting <= i && eligible <= i && retained <= i,
        decreases channel.members.len() - i,
    {
        proof {
            assert(channel.members@.take(i + 1).drop_last() =~= channel.members@.take(i as int));
            assert(channel.members@.take(i + 1).last() == channel.members@[i as int]);
        }
        let m = &channel.members[i];
        let is_active = match m.last_active_at {
            Some(t) => t >= start,
            None => false,
        };
        if is_active {
            active = active + 1;
        }
        if m.total_votes > 0 && is_active {
            voting = voting + 1;
        }
        if m.joined_at < start {
            eligible = eligible + 1;
        }
        if m.joined_at < start && is_active {
            retained = retained + 1;
        }
        i = i + 1;
    }
    proof {
        assert(channel.members@.take(channel.members@.len() as int) =~= channel.members@);
    }
    RewardCounts {
        member_count: if channel.member_count < 1 { 1 } else { channel.member_count },
        active,
        voting,
        eligible,
        retained,
        net_member_growth: joined as i64 - left as i64,
    }
}

/// A request to join a channel.
#[derive(Debug, Clone)]
pub struct RequestJoinRequest {
    pub channel_id: String,
    pub user_id: String,
    pub username: String,
    pub user_nickname: Option<String>,
}

/// An admin's approval of a join request.
#[derive(Debug, Clone)]
pub struct ApproveRequestRequest {
    pub channel_id: String,
    pub user_id: String,
    pub username: String,
}

/// An admin's refusal of a join request.
#[derive(Debug, Clone)]
pub struct RejectRequestRequest {
    pub channel_id: String,
    pub user_id: String,
}

/// A request to join with an invite code.
#[derive(Debug, Clone)]
pub struct JoinByCodeRequest {
    pub invite_code: String,
    pub user_id: String,
    pub username: String,
}

/// A request to add users to a channel.
#[derive(Debug, Clone)]
pub struct AddMembersRequest {
    pub channel_id: String,
    pub members: Vec<NewMember>,
}

/// A request to leave a channel.
#[derive(Debug, Clone)]
pub struct LeaveChannelRequest {
    pub channel_id: String,
    pub user_id: String,
}

/// The period of an admin payout computation.
#[derive(Debug, Clone)]
pub struct ComputePayoutQuery {
    pub days: Option<i64>,
}

/// The period, in days, an admin's reward is scored over.
#[derive(Debug, Clone)]
pub struct ComputeRewardScoreQuery {
    pub days: Option<i64>,
}

/// The days a reward is scored over: as asked, else a week.
pub fn reward_days(q: &ComputeRewardScoreQuery) -> (d: i64)
    ensures
        d == match q.days {
            Some(x) => x,
            None => 7,
        },
{
    match q.days {
        Some(x) => x,
        None => 7,
    }
}

/// The notice an admin gets for a join request: `Amina wants to join
/// 'Gor Mahia Fans'`, naming the user by nickname when given.
pub fn join_request_notice(req: &RequestJoinRequest, channel_name: &str) -> (s: String)
    ensures
        s@ == match req.user_nickname {
            Some(n) => n@,
            None => req.username@,
        } + " wants to join '"@ + channel_name@ + "'"@,
{
    let mut s = match &req.user_nickname {
        Some(n) => n.clone(),
        None => req.username.clone(),
    };
    s.append(" wants to join '");
    s.append(channel_name);
    s.append("'");
    s
}

/// The notice of an approved join request.
pub fn join_approved_notice(channel_name: &str) -> (s: String)
    ensures
        s@ == "You have been added to '"@ + channel_name@ + "' 🎉"@,
{
    let mut s = concat("You have been added to '", channel_name);
    s.append("' 🎉");
    s
}

/// The notice of a declined join request.
pub fn join_declined_notice(channel_name: &str) -> (s: String)
    ensures
        s@ == "Your request to join '"@ + channel_name@ + "' was declined"@,
{
    let mut s = concat("Your request to join '", channel_name);
    s.append("' was declined");
    s
}

/// A request to open a fixture's chat in a channel.
#[derive(Debug, Clone)]
pub struct InitializeFixtureChatRequest {
    pub channel_id: String,
    pub fixture_id: String,
}

/// What a channel fixture shows of its match.
#[derive(Debug, Clone)]
pub struct FixtureLabel {
    pub match_name: String,
    pub kickoff_time: String,
    pub status: String,
}

/// A fixture found in the store, as far as its chat shows it.
#[derive(Debug, Clone)]
pub struct FixtureInfo {
    pub home_team: String,
    pub away_team: String,
    pub date_iso: String,
    pub time: String,
    pub status: String,
}

/// How a fixture's chat names its match: `Home vs Away`, kicking off at
/// `date time`, with the fixture's status; a fixture that is not found is
/// called `Fixture <id>`, with no kickoff and status `live`.
pub fn fixture_label(fixture_id: &str, info: &Option<FixtureInfo>) -> (l: FixtureLabel)
    ensures
        info matches Some(f) ==> l.match_name@ == f.home_team@ + " vs "@ + f.away_team@
            && l.kickoff_time@ == f.date_iso@ + " "@ + f.time@ && l.status@ == f.status@,
        info is None ==> l.match_name@ == "Fixture "@ + fixture_id@ && l.kickoff_time@ == ""@ && l.status@ == "live"@,
{
    match info {
        Some(f) => {
            let mut name = concat(f.home_team.as_str(), " vs ");
            name.append(f.away_team.as_str());
            let mut kick = concat(f.date_iso.as_str(), " ");
            kick.append(f.time.as_str());
            FixtureLabel { match_name: name, kickoff_time: kick, status: f.status.clone() }
        },
        None => FixtureLabel {
            match_name: concat("Fixture ", fixture_id),
            kickoff_time: String::from_str(""),
            status: String::from_str("live"),
        },
    }
}

/// A message sent to a channel (the fields its handling reads).
#[derive(Debug, Clone)]
pub struct SendMessageRequest {
    pub user_id: String,
    pub username: String,
    pub text: String,
    pub fixture_id: Option<String>,
    pub selection: Option<String>,
    pub caption: Option<String>,
    pub image_url: Option<String>,
    pub is_image: bool,
    pub video_url: Option<String>,
    pub is_video: bool,
    pub reply_to_id: Option<String>,
    pub reply_to_text: Option<String>,
    pub reply_to_username: Option<String>,
    pub reply_to_selection: Option<String>,
}

/// What a new message is announced with: `📷 Image`, `🎥 Video`, or the
/// first 50 characters of its text.
pub fn message_preview(req: &SendMessageRequest) -> (p: String)
    ensures
        p@ == if req.is_image {
            "📷 Image"@
        } else if req.is_video {
            "🎥 Video"@
        } else {
            req.text@.take(if req.text@.len() < 50 { req.text@.len() as int } else { 50 })
        },
{
    if req.is_image {
        return String::from_str("📷 Image");
    }
    if req.is_video {
        return String::from_str("🎥 Video");
    }
    let n = req.text.unicode_len();
    let lim: usize = if n < 50 { n } else { 50 };
    let mut p = String::new();
    let mut i: usize = 0;
    while i < lim
        invariant
            lim <= n,
            n == req.text@.len(),
            i <= lim,
            p@ == req.text@.take(i as int),
        decreases lim - i,
    {
        p.push(req.text.as_str().get_char(i));
        proof {
            assert(p@ =~= req.text@.take(i + 1));
        }
        i = i + 1;
    }
    p
}

/// The title a new message is announced with: `💬 Amina sent a message`.
pub fn message_title(username: &str) -> (s: String)
    ensures
        s@ == "💬 "@ + username@ + " sent a message"@,
{
    let mut s = concat("💬 ", username);
    s.append(" sent a message");
    s
}

/// Parameters of a message list.
#[derive(Debug, Clone)]
pub struct MessagesQuery {
    pub fixture_id: Option<String>,
    pub limit: Option<i64>,
    pub before: Option<String>,
}

/// How many messages a list returns: as asked (100 when not asked), at
/// most 500.
pub fn message_limit(q: &MessagesQuery) -> (l: i64)
    ensures
        l == match q.limit {
            Some(x) => if x > 500 { 500 } else { x },
            None => 100,
        },
{
    match q.limit {
        Some(x) => if x > 500 { 500 } else { x },
        None => 100,
    }
}

/// Who asks to delete a message.
#[derive(Debug, Clone)]
pub struct DeleteMessageRequest {
    pub user_id: String,
}

/// Decides a message deletion, given the message's sender (`None`: no such
/// message): only the sender may delete it.
pub fn decide_message_deletion(sender: &Option<String>, req: &DeleteMessageRequest) -> (r: Result<(), AppError>)
    ensures
        sender is None ==> r == Err::<(), AppError>(AppError::DocumentNotFound),
        sender matches Some(s) && s@ != req.user_id@
            ==> (r matches Err(e) && is_validation_error(e, "You can only delete your own messages"@)),
        sender matches Some(s) && s@ == req.user_id@ ==> r is Ok,
{
    match sender {
        None => Err(AppError::DocumentNotFound),
        Some(s) => if str_eq(s.as_str(), req.user_id.as_str()) {
            Ok(())
        } else {
            Err(validation("You can only delete your own messages"))
        },
    }
}

/// One user's unread count in a fixture chat.
#[derive(Debug, Clone)]
pub struct UnreadCount {
    pub user_id: String,
    pub count: i32,
}

/// The unread count recorded for `u`: the first entry for `u`, else 0.
pub open spec fn unread_of(v: Seq<UnreadCount>, u: Seq<char>) -> int
    decreases v.len(),
{
    if v.len() == 0 {
        0
    } else if v[0].user_id@ == u {
        v[0].count as int
    } else {
        unread_of(v.drop_first(), u)
    }
}

fn lookup_unread(v: &Vec<UnreadCount>, u: &str) -> (r: i32)
    ensures
        r == unread_of(v@, u@),
{
    let mut i: usize = 0;
    assert(v@.skip(0) =~= v@);
    while i < v.len()
        invariant
            i <= v@.len(),
            unread_of(v@.skip(i as int), u@) == unread_of(v@, u@),
        decreases v.len() - i,
    {
        proof {
            assert(v@.skip(i as int).drop_first() =~= v@.skip(i + 1));
        }
        if str_eq(v[i].user_id.as_str(), u) {
            return v[i].count;
        }
        i = i + 1;
    }
    proof {
        assert(v@.skip(i as int).len() == 0);
    }
    0
}

/// A new unread count to record.
#[derive(Debug, Clone)]
pub struct UnreadUpdate {
    pub user_id: String,
    pub count: i64,
}

/// A member other than `sender`.
pub open spec fn other_than(sender: Seq<char>) -> spec_fn(ChannelMember) -> bool {
    |m: ChannelMember| m.user_id@ != sender
}

/// The unread counts a new message sets: for each member other than the
/// sender, in member order, one more than the count recorded before.
pub fn unread_updates(current: &Vec<UnreadCount>, members: &Vec<ChannelMember>, sender: &str) -> (r: Vec<UnreadUpdate>)
    ensures
        r@.len() == members@.filter(other_than(sender@)).len(),
        forall|i: int| 0 <= i < r@.len() ==> (#[trigger] r@[i]).user_id@ == members@.filter(other_than(sender@))[i].user_id@
            && r@[i].count == unread_of(current@, r@[i].user_id@) + 1,
{
    let ghost p = other_than(sender@);
    let mut r: Vec<UnreadUpdate> = Vec::new();
    let mut i: usize = 0;
    while i < members.len()
        invariant
            i <= members@.len(),
            p == other_than(sender@),
            r@.len() == members@.take(i as int).filter(p).len(),
            forall|k: int| 0 <= k < r@.len() ==> (#[trigger] r@[k]).user_id@ == members@.take(i as int).filter(p)[k].user_id@
                && r@[k].count == unread_of(current@, r@[k].user_id@) + 1,
        decreases members.len() - i,
    {
        proof {
            reveal_with_fuel(Seq::<_>::filter, 1);
            assert(members@.take(i + 1).drop_last() =~= members@.take(i as int));
            assert(members@.take(i + 1).last() == members@[i as int]);
        }
        let m = &members[i];
        if !str_eq(m.user_id.as_str(), sender) {
            let c = lookup_unread(current, m.user_id.as_str());
            r.push(UnreadUpdate { user_id: m.user_id.clone(), count: c as i64 + 1 });
        }
        i = i + 1;
    }
    proof {
        assert(members@.take(members@.len() as int) =~= members@);
    }
    r
}

/// The caption sent with a file uploaded to a channel's chat.
#[derive(Debug, Clone)]
pub struct ChatMediaUploadRequest {
    pub caption: Option<String>,
}

/// How an uploaded chat file is stored.
#[derive(Debug, Clone, Copy, PartialEq, Eq, Structural)]
pub enum MediaKind {
    Image,
    Video,
}

/// Where an uploaded chat file goes: its kind and its lower-cased
/// extension.
#[derive(Debug, Clone)]
pub struct ChatMediaPlan {
    pub kind: MediaKind,
    pub extension: String,
}

/// Decides an upload to a channel's chat, in the order the checks are
/// made: a file was sent, it has a name, and the uploader is named. A file
/// whose extension names a video format is stored as a video, any other as
/// an image.
pub fn decide_chat_media_upload(user_id: &str, has_file: bool, file_name: &Option<String>) -> (r: Result<ChatMediaPlan, AppError>)
    ensures
        !has_file ==> (r matches Err(e) && is_validation_error(e, "No file provided"@)),
        has_file && file_name is None ==> (r matches Err(e) && is_validation_error(e, "No file name"@)),
        has_file && file_name is Some && user_id@.len() == 0
            ==> (r matches Err(e) && is_validation_error(e, "User ID is required"@)),
        has_file && file_name is Some && user_id@.len() > 0 ==> (r matches Ok(plan)
            && plan.extension@ == spec_extension(file_name->0@)
            && (plan.kind == MediaKind::Video <==> is_video_extension(plan.extension@))),
{
    if !has_file {
        return Err(validation("No file provided"));
    }
    let name = match file_name {
        Some(n) => n,
        None => {
            return Err(validation("No file name"));
        },
    };
    if user_id.unicode_len() == 0 {
        return Err(validation("User ID is required"));
    }
    let extension = media_extension(name.as_str());
    let kind = if video_extension(extension.as_str()) { MediaKind::Video } else { MediaKind::Image };
    Ok(ChatMediaPlan { kind, extension })
}

/// Asks for a page of a channel's messages about one fixture, or about
/// none.
#[derive(Debug, Clone)]
pub struct GetMessagesRequest {
    pub channel_id: String,
    pub fixture_id: Option<String>,
    pub limit: Option<i32>,
    pub offset: Option<i32>,
}

/// A computed admin reward score, as far as picking each channel's latest
/// one reads it; `computed_at` is in milliseconds since the epoch.
#[derive(Debug, Clone)]
pub struct ScoreEntry {
    pub channel_id: String,
    pub computed_at: i64,
}

/// Entry `i` is its channel's latest: no entry of the same channel was
/// computed later, nor at the same moment and listed earlier.
pub open spec fn latest_of_channel(s: Seq<ScoreEntry>, i: int) -> bool {
    forall|j: int| 0 <= j < s.len() && (#[trigger] s[j]).channel_id@ == s[i].channel_id@ && j != i
        ==> s[j].computed_at < s[i].computed_at || (s[j].computed_at == s[i].computed_at && i < j)
}

fn is_latest_of_channel(s: &Vec<ScoreEntry>, i: usize) -> (r: bool)
    requires
        i < s@.len(),
    ensures
        r == latest_of_channel(s@, i as int),
{
    let mut j: usize = 0;
    while j < s.len()
        invariant
            i < s@.len(),
            j <= s@.len(),
            forall|k: int| 0 <= k < j && (#[trigger] s@[k]).channel_id@ == s@[i as int].channel_id@ && k != i
                ==> s@[k].computed_at < s@[i as int].computed_at || (s@[k].computed_at == s@[i as int].computed_at && i < k),
        decreases s.len() - j,
    {
        if j != i && str_eq(s[j].channel_id.as_str(), s[i].channel_id.as_str()) {
            if !(s[j].computed_at < s[i].computed_at || (s[j].computed_at == s[i].computed_at && i < j)) {
                return false;
            }
        }
        j = j + 1;
    }
    true
}

/// The latest score of each channel, in the order they are listed: the
/// leaderboard keeps one score per channel, its most recent.
pub fn latest_per_channel(scores: &Vec<ScoreEntry>) -> (r: Vec<usize>)
    ensures
        forall|i: int| 0 <= i < r@.len() ==> (#[trigger] r@[i]) < scores@.len(),
        forall|i: int, j: int| 0 <= i < j < r@.len() ==> (#[trigger] r@[i]) < (#[trigger] r@[j]),
        forall|x: int| 0 <= x < scores@.len() ==> (#[trigger] r@.contains(x as usize) <==> latest_of_channel(scores@, x)),
{
    let mut r: Vec<usize> = Vec::new();
    let mut i: usize = 0;
    while i < scores.len()
        invariant
            i <= scores@.len(),
            forall|k: int| 0 <= k < r@.len() ==> (#[trigger] r@[k]) < i,
            forall|a: int, b: int| 0 <= a < b < r@.len() ==> (#[trigger] r@[a]) < (#[trigger] r@[b]),
            forall|x: int| 0 <= x < i ==> (#[trigger] r@.contains(x as usize) <==> latest_of_channel(scores@, x)),
        decreases scores.len() - i,
    {
        proof {
            crate::order::lemma_push_contains(r@, i);
            assert(!r@.contains(i));
        }
        if is_latest_of_channel(scores, i) {
            r.push(i);
        }
        i = i + 1;
    }
    r
}

/// Every channel with a score keeps exactly one on the leaderboard: among
/// the entries of a channel, one is its latest, and no two are.
pub proof fn law_one_latest_score_per_channel(s: Seq<ScoreEntry>, i: int, j: int)
    requires
        0 <= i < s.len(),
        0 <= j < s.len(),
        i != j,
        s[i].channel_id@ == s[j].channel_id@,
        latest_of_channel(s, i),
    ensures
        !latest_of_channel(s, j),
{
    assert(s[j].computed_at < s[i].computed_at || (s[j].computed_at == s[i].computed_at && i < j));
    if latest_of_channel(s, j) {
        assert(s[i].computed_at < s[j].computed_at || (s[i].computed_at == s[j].computed_at && j < i));
    }
}

/// The channel with the most messages this week (an index into the weekly
/// counts): one of the highest count, the first listed; `None` when there
/// are no channels.
pub fn busiest_channel(messages_this_week: &Vec<i64>) -> (r: Option<usize>)
    ensures
        messages_this_week@.len() == 0 <==> r is None,
        r matches Some(i) ==> i < messages_this_week@.len()
            && (forall|x: int| 0 <= x < messages_this_week@.len() ==> messages_this_week@[x] <= messages_this_week@[i as int])
            && (forall|x: int| 0 <= x < i ==> messages_this_week@[x] < messages_this_week@[i as int]),
{
    if messages_this_week.len() == 0 {
        return None;
    }
    let mut best: usize = 0;
    let mut i: usize = 1;
    while i < messages_this_week.len()
        invariant
            1 <= i <= messages_this_week@.len(),
            best < i,
            forall|x: int| 0 <= x < i ==> messages_this_week@[x] <= messages_this_week@[best as int],
            forall|x: int| 0 <= x < best ==> messages_this_week@[x] < messages_this_week@[best as int],
        decreases messages_this_week.len() - i,
    {
        if messages_this_week[i] > messages_this_week[best] {
            best = i;
        }
        i = i + 1;
    }
    Some(best)
}

/// The name a channel lists user `u` under: the username of the last
/// member entry with that id, if any.
pub open spec fn member_name(ms: Seq<ChannelMember>, u: Seq<char>) -> Option<Seq<char>>
    decreases ms.len(),
{
    if ms.len() == 0 {
        None
    } else if ms.last().user_id@ == u {
        Some(ms.last().username@)
    } else {
        member_name(ms.drop_last(), u)
    }
}

fn last_member_name(members: &Vec<ChannelMember>, u: &str) -> (r: Option<String>)
    ensures
        match r {
            Some(n) => member_name(members@, u@) == Some(n@),
            None => member_name(members@, u@) is None,
        },
{
    let mut i: usize = members.len();
    proof {
        assert(members@.take(members@.len() as int) =~= members@);
    }
    while i > 0
        invariant
            i <= members@.len(),
            member_name(members@, u@) == member_name(members@.take(i as int), u@),
        decreases i,
    {
        proof {
            assert(members@.take(i as int).drop_last() =~= members@.take(i - 1));
            assert(members@.take(i as int).last() == members@[i - 1]);
        }
        if str_eq(members[i - 1].user_id.as_str(), u) {
            return Some(members[i - 1].username.clone());
        }
        i = i - 1;
    }
    proof {
        assert(members@.take(0) =~= Seq::<ChannelMember>::empty());
    }
    None
}

/// The pledges of a fixture that a channel shows: those whose pledger is a
/// member, in their order (indices into the pledgers' ids), each with the
/// name the channel lists its pledger under.
pub fn channel_pledgers(starters: &Vec<String>, members: &Vec<ChannelMember>) -> (r: Vec<(usize, String)>)
    ensures
        forall|i: int| 0 <= i < r@.len() ==> (#[trigger] r@[i]).0 < starters@.len()
            && member_name(members@, starters@[r@[i].0 as int]@) == Some(r@[i].1@),
        forall|i: int, j: int| 0 <= i < j < r@.len() ==> (#[trigger] r@[i]).0 < (#[trigger] r@[j]).0,
        forall|x: int| 0 <= x < starters@.len()
            ==> (member_name(members@, starters@[x]@) is Some <==> exists|i: int| 0 <= i < r@.len() && (#[trigger] r@[i]).0 == x),
{
    let mut r: Vec<(usize, String)> = Vec::new();
    let mut k: usize = 0;
    while k < starters.len()
        invariant
            k <= starters@.len(),
            forall|i: int| 0 <= i < r@.len() ==> (#[trigger] r@[i]).0 < k
                && member_name(members@, starters@[r@[i].0 as int]@) == Some(r@[i].1@),
            forall|i: int, j: int| 0 <= i < j < r@.len() ==> (#[trigger] r@[i]).0 < (#[trigger] r@[j]).0,
            forall|x: int| 0 <= x < k
                ==> (member_name(members@, starters@[x]@) is Some <==> exists|i: int| 0 <= i < r@.len() && (#[trigger] r@[i]).0 == x),
        decreases starters.len() - k,
    {
        let ghost before = r@;
        match last_member_name(members, starters[k].as_str()) {
            Some(n) => {
                r.push((k, n));
                proof {
                    assert forall|x: int| 0 <= x < k + 1 implies (member_name(members@, starters@[x]@) is Some
                        <==> exists|i: int| 0 <= i < r@.len() && (#[trigger] r@[i]).0 == x) by {
                        if x < k {
                            if exists|i: int| 0 <= i < r@.len() && (#[trigger] r@[i]).0 == x {
                                let i = choose|i: int| 0 <= i < r@.len() && (#[trigger] r@[i]).0 == x;
                                assert(i < before.len());
                                assert(before[i].0 == x);
                            }
                            if exists|i: int| 0 <= i < before.len() && (#[trigger] before[i]).0 == x {
                                let i = choose|i: int| 0 <= i < before.len() && (#[trigger] before[i]).0 == x;
                                assert(r@[i] == before[i]);
                            }
                        } else {
                            assert(r@[before.len() as int].0 == x);
                        }
                    }
                }
            },
            None => {
                proof {
                    assert forall|i: int| 0 <= i < r@.len() implies (#[trigger] r@[i]).0 != k by {}
                }
            },
        }
        k = k + 1;
    }
    r
}

/// How a notification reaches one recipient: over their open socket (the
/// room `user_<id>`) when they are online, otherwise as a push message.
#[derive(Debug, Clone, PartialEq, Eq)]
pub enum Delivery {
    Socket(String),
    Push(String),
}

/// What announcing an event to a channel does: whether the channel's room
/// is told at all, and then each recipient's delivery, in member order.
#[derive(Debug, Clone)]
pub struct NotificationPlan {
    pub broadcast: bool,
    pub deliveries: Vec<Delivery>,
}

/// The members an event by `actor` is announced to: every member entry
/// other than the actor, in order.
pub open spec fn recipients(members: Seq<ChannelMember>, actor: Seq<char>) -> Seq<ChannelMember> {
    members.filter(|m: ChannelMember| m.user_id@ != actor)
}

/// The plain view of a delivery: socket or push, and the room or user.
pub open spec fn delivery_view(d: Delivery) -> (bool, Seq<char>) {
    match d {
        Delivery::Socket(r) => (true, r@),
        Delivery::Push(u) => (false, u@),
    }
}

/// The deliveries an event by `actor` makes, in member order: for each
/// member other than the actor, whether it goes over a socket (the member
/// is online) and the room (`user_<id>`) or the user it goes to.
pub open spec fn planned(ms: Seq<ChannelMember>, online: Seq<bool>, actor: Seq<char>) -> Seq<(bool, Seq<char>)>
    decreases ms.len(),
{
    if ms.len() == 0 || online.len() == 0 {
        Seq::empty()
    } else {
        let rest = planned(ms.drop_last(), online.drop_last(), actor);
        let m = ms.last();
        if m.user_id@ != actor {
            rest.push((online.last(), if online.last() { "user_"@ + m.user_id@ } else { m.user_id@ }))
        } else {
            rest
        }
    }
}

/// Plans the announcement of an event by `actor` (`online` lines up with
/// the members). Nothing happens when no one else is a member; otherwise
/// the channel's room is told and, when push messages are set up, every
/// other member gets a delivery of their own: over their socket when
/// online, as a push message otherwise. Without push messages, no personal
/// delivery is made.
pub fn notification_plan(members: &Vec<ChannelMember>, online: &Vec<bool>, actor: &str, push_ready: bool) -> (p: NotificationPlan)
    requires
        online@.len() == members@.len(),
    ensures
        p.broadcast == (recipients(members@, actor@).len() > 0),
        !p.broadcast || !push_ready ==> p.deliveries@.len() == 0,
        p.broadcast && push_ready ==> p.deliveries@.map_values(|d: Delivery| delivery_view(d)) == planned(members@, online@, actor@),
{
    let ghost pred = |m: ChannelMember| m.user_id@ != actor@;
    let mut deliveries: Vec<Delivery> = Vec::new();
    let mut count: usize = 0;
    let mut i: usize = 0;
    while i < members.len()
        invariant
            online@.len() == members@.len(),
            i <= members@.len(),
            pred == (|m: ChannelMember| m.user_id@ != actor@),
            count == members@.take(i as int).filter(pred).len(),
            push_ready ==> deliveries@.map_values(|d: Delivery| delivery_view(d))
                == planned(members@.take(i as int), online@.take(i as int), actor@),
            !push_ready ==> deliveries@.len() == 0,
        decreases members.len() - i,
    {
        proof {
            reveal_with_fuel(Seq::<_>::filter, 1);
            assert(members@.take(i + 1).drop_last() =~= members@.take(i as int));
            assert(members@.take(i + 1).last() == members@[i as int]);
            assert(online@.take(i + 1).drop_last() =~= online@.take(i as int));
            assert(online@.take(i + 1).last() == online@[i as int]);
        }
        let ghost before = deliveries@;
        let other = !str_eq(members[i].user_id.as_str(), actor);
        if other {
            if push_ready {
                let d = if online[i] {
                    Delivery::Socket(concat("user_", members[i].user_id.as_str()))
                } else {
                    Delivery::Push(members[i].user_id.clone())
                };
                deliveries.push(d);
                proof {
                    assert(deliveries@.map_values(|d: Delivery| delivery_view(d))
                        =~= before.map_values(|d: Delivery| delivery_view(d)).push(delivery_view(d)));
                }
            }
            count = count + 1;
        }
        i = i + 1;
    }
    proof {
        assert(members@.take(members@.len() as int) =~= members@);
        assert(online@.take(online@.len() as int) =~= online@);
    }
    if count == 0 {
        return NotificationPlan { broadcast: false, deliveries: Vec::new() };
    }
    NotificationPlan { broadcast: true, deliveries }
}

} // verus!

verus! {

/// `l` is how the chat of fixture `fixture_id` names its match, given what
/// was found of it (see `fixture_label`).
pub open spec fn is_label_of(fixture_id: Seq<char>, info: Option<FixtureInfo>, l: FixtureLabel) -> bool {
    &&& info matches Some(f) ==> l.match_name@ == f.home_team@ + " vs "@ + f.away_team@
        && l.kickoff_time@ == f.date_iso@ + " "@ + f.time@ && l.status@ == f.status@
    &&& info is None ==> l.match_name@ == "Fixture "@ + fixture_id && l.kickoff_time@ == ""@ && l.status@ == "live"@
}

/// A fixture's chat in a channel, as a sent message changes it. Times are
/// milliseconds since the epoch.
#[derive(Debug, Clone)]
pub struct ChannelFixtureChat {
    pub channel_id: String,
    pub fixture_id: String,
    pub label: FixtureLabel,
    pub vote_counts: crate::votes::VoteCounts,
    pub comment_count: i64,
    pub pledge_count: i64,
    pub bet_count: i64,
    pub likes_count: i64,
    pub unread_counts: Vec<UnreadCount>,
    pub last_message: Option<String>,
    pub last_message_at: Option<i64>,
    pub last_sender: Option<String>,
    pub added_at: i64,
}

/// The text of an optional string.
pub open spec fn opt_view(o: Option<String>) -> Option<Seq<char>> {
    match o {
        Some(s) => Some(s@),
        None => None,
    }
}

/// `after` is the chat `before` once a message with `text` from `sender`
/// was sent at `now`: one more comment, and the message recorded as the
/// last; nothing else changes.
pub open spec fn spec_chat_after_message(before: ChannelFixtureChat, after: ChannelFixtureChat, text: Seq<char>, sender: Seq<char>, now: i64) -> bool {
    &&& after.channel_id@ == before.channel_id@
    &&& after.fixture_id@ == before.fixture_id@
    &&& after.label.match_name@ == before.label.match_name@
    &&& after.label.kickoff_time@ == before.label.kickoff_time@
    &&& after.label.status@ == before.label.status@
    &&& after.vote_counts == before.vote_counts
    &&& after.comment_count == before.comment_count + 1
    &&& after.pledge_count == before.pledge_count
    &&& after.bet_count == before.bet_count
    &&& after.likes_count == before.likes_count
    &&& after.unread_counts@ == before.unread_counts@
    &&& opt_view(after.last_message) == Some(text)
    &&& after.last_message_at == Some(now)
    &&& opt_view(after.last_sender) == Some(sender)
    &&& after.added_at == before.added_at
}

/// `c` is the chat a first message with `text` from `sender` at `now`
/// opens for fixture `fixture_id` in channel `channel_id`: named after what
/// was found of the fixture, with no votes, pledges, bets or likes, one
/// comment, an unread count of 0 for each member in member order, and the
/// message recorded as the last.
pub open spec fn spec_new_chat(
    c: ChannelFixtureChat,
    channel_id: Seq<char>,
    fixture_id: Seq<char>,
    info: Option<FixtureInfo>,
    members: Seq<ChannelMember>,
    text: Seq<char>,
    sender: Seq<char>,
    now: i64,
) -> bool {
    &&& c.channel_id@ == channel_id
    &&& c.fixture_id@ == fixture_id
    &&& is_label_of(fixture_id, info, c.label)
    &&& c.vote_counts.home == 0 && c.vote_counts.away == 0 && c.vote_counts.draw == 0
    &&& c.comment_count == 1
    &&& c.pledge_count == 0 && c.bet_count == 0 && c.likes_count == 0
    &&& c.unread_counts@.len() == members.len()
    &&& forall|i: int| 0 <= i < members.len() ==> (#[trigger] c.unread_counts@[i]).user_id@ == members[i].user_id@
        && c.unread_counts@[i].count == 0
    &&& opt_view(c.last_message) == Some(text)
    &&& c.last_message_at == Some(now)
    &&& opt_view(c.last_sender) == Some(sender)
    &&& c.added_at == now
}

/// The chat of a fixture after a message with `req`'s text is sent to it at
/// `now`: the existing chat counts one more comment and records the message
/// as its last (`spec_chat_after_message`); a fixture without a chat in the
/// channel gets one (`spec_new_chat`). The unread counts of the other
/// members then rise by one (`unread_updates`).
pub fn chat_after_message(
    existing: Option<ChannelFixtureChat>,
    channel_id: &str,
    fixture_id: &str,
    info: &Option<FixtureInfo>,
    members: &Vec<ChannelMember>,
    req: &SendMessageRequest,
    now: i64,
) -> (c: ChannelFixtureChat)
    requires
        existing matches Some(e) ==> e.comment_count < i64::MAX,
    ensures
        existing matches Some(e) ==> spec_chat_after_message(e, c, req.text@, req.username@, now),
        existing is None ==> spec_new_chat(c, channel_id@, fixture_id@, *info, members@, req.text@, req.username@, now),
{
    match existing {
        Some(e) => ChannelFixtureChat {
            comment_count: e.comment_count + 1,
            last_message: Some(req.text.clone()),
            last_message_at: Some(now),
            last_sender: Some(req.username.clone()),
            ..e
        },
        None => {
            let mut unread: Vec<UnreadCount> = Vec::new();
            let mut i: usize = 0;
            while i < members.len()
                invariant
                    i <= members@.len(),
                    unread@.len() == i,
                    forall|k: int| 0 <= k < i ==> (#[trigger] unread@[k]).user_id@ == members@[k].user_id@
                        && unread@[k].count == 0,
                decreases members.len() - i,
            {
                unread.push(UnreadCount { user_id: members[i].user_id.clone(), count: 0 });
                i = i + 1;
            }
            ChannelFixtureChat {
                channel_id: String::from_str(channel_id),
                fixture_id: String::from_str(fixture_id),
                label: fixture_label(fixture_id, info),
                vote_counts: crate::votes::VoteCounts::zero(),
                comment_count: 1,
                pledge_count: 0,
                bet_count: 0,
                likes_count: 0,
                unread_counts: unread,
                last_message: Some(req.text.clone()),
                last_message_at: Some(now),
                last_sender: Some(req.username.clone()),
                added_at: now,
            }
        },
    }
}

/// `k` is the position of the first member `u`.
pub open spec fn is_first_member(ms: Seq<ChannelMember>, u: Seq<char>, k: int) -> bool {
    0 <= k < ms.len() && ms[k].user_id@ == u && forall|j: int| 0 <= j < k ==> ms[j].user_id@ != u
}

/// A member after sending a message at `now`: one more message, active
/// at `now`.
pub open spec fn after_sending(m: ChannelMember, now: i64) -> ChannelMember {
    ChannelMember { msg_count: (m.msg_count + 1) as i32, last_active_at: Some(now), ..m }
}

/// A channel's message activity. Times are milliseconds since the epoch.
#[derive(Debug, Clone)]
pub struct ChannelActivity {
    pub total_messages: i64,
    pub messages_this_week: i64,
    pub last_message_at: Option<i64>,
}

impl ChannelActivity {
    /// Counts a message sent at `now`: one more in total and this week, and
    /// `now` as the last message's time.
    pub fn record_message(&mut self, now: i64)
        requires
            old(self).total_messages < i64::MAX,
            old(self).messages_this_week < i64::MAX,
        ensures
            final(self).total_messages == old(self).total_messages + 1,
            final(self).messages_this_week == old(self).messages_this_week + 1,
            final(self).last_message_at == Some(now),
    {
        self.total_messages = self.total_messages + 1;
        self.messages_this_week = self.messages_this_week + 1;
        self.last_message_at = Some(now);
    }
}

impl Channel {
    /// Counts a message `sender` sent at `now`: the first member with that
    /// id (the one the store's positional update reaches) gets one more
    /// message and is active at `now`; every other member, and the rest of
    /// the channel, stay as they were.
    pub fn record_message(&mut self, sender: &str, now: i64)
        requires
            forall|i: int| 0 <= i < old(self).members@.len() && (#[trigger] old(self).members@[i]).user_id@ == sender@
                ==> old(self).members@[i].msg_count < i32::MAX,
        ensures
            final(self).channel_id == old(self).channel_id,
            final(self).name == old(self).name,
            final(self).created_by == old(self).created_by,
            final(self).season == old(self).season,
            final(self).member_count == old(self).member_count,
            final(self).invite_code == old(self).invite_code,
            final(self).pending_requests == old(self).pending_requests,
            final(self).members@.len() == old(self).members@.len(),
            forall|i: int| 0 <= i < old(self).members@.len() ==> #[trigger] final(self).members@[i]
                == if is_first_member(old(self).members@, sender@, i) {
                    after_sending(old(self).members@[i], now)
                } else {
                    old(self).members@[i]
                },
    {
        let mut k: usize = 0;
        let mut found = false;
        while k < self.members.len() && !found
            invariant
                k <= self.members@.len(),
                self.members@ == old(self).members@,
                forall|j: int| 0 <= j < k ==> (#[trigger] self.members@[j]).user_id@ != sender@,
                found ==> k < self.members@.len() && self.members@[k as int].user_id@ == sender@,
            decreases self.members.len() - k + (if found { 0int } else { 1int }),
        {
            if str_eq(self.members[k].user_id.as_str(), sender) {
                found = true;
            } else {
                k = k + 1;
            }
        }
        if found {
            let m = self.members[k].clone_member();
            let bumped = ChannelMember { msg_count: m.msg_count + 1, last_active_at: Some(now), ..m };
            self.members.set(k, bumped);
            proof {
                assert forall|i: int| 0 <= i < old(self).members@.len() implies #[trigger] self.members@[i]
                    == if is_first_member(old(self).members@, sender@, i) {
                        after_sending(old(self).members@[i], now)
                    } else {
                        old(self).members@[i]
                    } by {
                    if i != k {
                        if is_first_member(old(self).members@, sender@, i) {
                            if i < k {
                            } else {
                                assert(old(self).members@[k as int].user_id@ == sender@);
                            }
                        }
                    }
                }
            }
        }
    }
}

} // verus!
