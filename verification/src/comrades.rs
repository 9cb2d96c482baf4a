//! Comrades: friendships between fans. A friendship is always mutual: it
//! is stored as two links, one each way, added together and removed
//! together.

use vstd::prelude::*;
use vstd::multiset::Multiset;
use crate::errors::{AppError, is_missing_field};
use crate::text::{str_eq, views};

verus! {

fn missing(field: &str) -> (e: AppError)
    ensures
        is_missing_field(e, field@),
{
    AppError::MissingRequiredField(String::from_str(field))
}

/// A request to befriend a user.
#[derive(Debug, Clone)]
pub struct AddComradeRequest {
    pub user_id: String,
    pub comrade_id: String,
    pub username: String,
    pub comrade_username: String,
    pub comrade_nickname: String,
    pub comrade_club: String,
    pub comrade_country: String,
}

/// A request to end a friendship.
#[derive(Debug, Clone)]
pub struct RemoveComradeRequest {
    pub user_id: String,
    pub comrade_id: String,
}

/// One direction of a friendship as stored: a user, their comrade and what
/// is shown of the comrade.
#[derive(Debug, Clone)]
pub struct Comrade {
    pub user_id: String,
    pub comrade_id: String,
    pub comrade_username: String,
    pub comrade_nickname: String,
    pub comrade_club: String,
    pub comrade_country: String,
    pub status: String,
}

/// Decides a friendship request, given whether the user already has the
/// comrade. User id, comrade id, username and comrade username must be
/// given, in that order, and the link must be new; the result is the two
/// links to store: the user's, showing the comrade as asked, and the
/// comrade's, showing the user by username (as nickname too), both with
/// the club and country given, both active.
pub fn decide_add_comrade(req: &AddComradeRequest, exists: bool) -> (r: Result<(Comrade, Comrade), AppError>)
    ensures
        req.user_id@.len() == 0 ==> (r matches Err(e) && is_missing_field(e, "user_id"@)),
        req.user_id@.len() > 0 && req.comrade_id@.len() == 0 ==> (r matches Err(e) && is_missing_field(e, "comrade_id"@)),
        req.user_id@.len() > 0 && req.comrade_id@.len() > 0 && req.username@.len() == 0
            ==> (r matches Err(e) && is_missing_field(e, "username"@)),
        req.user_id@.len() > 0 && req.comrade_id@.len() > 0 && req.username@.len() > 0 && req.comrade_username@.len() == 0
            ==> (r matches Err(e) && is_missing_field(e, "comrade_username"@)),
        req.user_id@.len() > 0 && req.comrade_id@.len() > 0 && req.username@.len() > 0 && req.comrade_username@.len() > 0
            && exists ==> r == Err::<(Comrade, Comrade), AppError>(AppError::UserAlreadyExists),
        req.user_id@.len() > 0 && req.comrade_id@.len() > 0 && req.username@.len() > 0 && req.comrade_username@.len() > 0
            && !exists ==> (r matches Ok(p) && {
                &&& p.0.user_id@ == req.user_id@ && p.0.comrade_id@ == req.comrade_id@
                &&& p.0.comrade_username@ == req.comrade_username@ && p.0.comrade_nickname@ == req.comrade_nickname@
                &&& p.1.user_id@ == req.comrade_id@ && p.1.comrade_id@ == req.user_id@
                &&& p.1.comrade_username@ == req.username@ && p.1.comrade_nickname@ == req.username@
                &&& p.0.comrade_club@ == req.comrade_club@ && p.1.comrade_club@ == req.comrade_club@
                &&& p.0.comrade_country@ == req.comrade_country@ && p.1.comrade_country@ == req.comrade_country@
                &&& p.0.status@ == "active"@ && p.1.status@ == "active"@
            }),
{
    if req.user_id.unicode_len() == 0 {
        return Err(missing("user_id"));
    }
    if req.comrade_id.unicode_len() == 0 {
        return Err(missing("comrade_id"));
    }
    if req.username.unicode_len() == 0 {
        return Err(missing("username"));
    }
    if req.comrade_username.unicode_len() == 0 {
        return Err(missing("comrade_username"));
    }
    if exists {
        return Err(AppError::UserAlreadyExists);
    }
    let forward = Comrade {
        user_id: req.user_id.clone(),
        comrade_id: req.comrade_id.clone(),
        comrade_username: req.comrade_username.clone(),
        comrade_nickname: req.comrade_nickname.clone(),
        comrade_club: req.comrade_club.clone(),
        comrade_country: req.comrade_country.clone(),
        status: String::from_str("active"),
    };
    let backward = Comrade {
        user_id: req.comrade_id.clone(),
        comrade_id: req.user_id.clone(),
        comrade_username: req.username.clone(),
        comrade_nickname: req.username.clone(),
        comrade_club: req.comrade_club.clone(),
        comrade_country: req.comrade_country.clone(),
        status: String::from_str("active"),
    };
    Ok((forward, backward))
}

/// The links of all friendships, each a (user, comrade) pair.
#[derive(Debug, Clone)]
pub struct ComradeBook {
    pub links: Vec<(String, String)>,
}

/// The links as a multiset of plain pairs.
pub open spec fn link_set(b: ComradeBook) -> Multiset<(Seq<char>, Seq<char>)> {
    b.links@.map_values(|l: (String, String)| (l.0@, l.1@)).to_multiset()
}

/// Every link has as many links back: friendships are mutual.
pub open spec fn is_mutual(m: Multiset<(Seq<char>, Seq<char>)>) -> bool {
    forall|a: Seq<char>, b: Seq<char>| #[trigger] m.count((a, b)) == m.count((b, a))
}

/// The links after a friendship between `u` and `c` is added.
pub open spec fn added(m: Multiset<(Seq<char>, Seq<char>)>, u: Seq<char>, c: Seq<char>) -> Multiset<(Seq<char>, Seq<char>)> {
    m.insert((u, c)).insert((c, u))
}

/// The links after the friendship between `u` and `c` is removed: one link
/// each way, when there is one.
pub open spec fn removed(m: Multiset<(Seq<char>, Seq<char>)>, u: Seq<char>, c: Seq<char>) -> Multiset<(Seq<char>, Seq<char>)> {
    m.remove((u, c)).remove((c, u))
}

fn find_link(links: &Vec<(String, String)>, u: &str, c: &str) -> (r: Option<usize>)
    ensures
        match r {
            Some(i) => i < links@.len() && links@[i as int].0@ == u@ && links@[i as int].1@ == c@,
            None => forall|i: int| 0 <= i < links@.len() ==> !((#[trigger] links@[i]).0@ == u@ && links@[i].1@ == c@),
        },
{
    let mut i: usize = 0;
    while i < links.len()
        invariant
            i <= links@.len(),
            forall|j: int| 0 <= j < i ==> !((#[trigger] links@[j]).0@ == u@ && links@[j].1@ == c@),
        decreases links.len() - i,
    {
        if str_eq(links[i].0.as_str(), u) && str_eq(links[i].1.as_str(), c) {
            return Some(i);
        }
        i = i + 1;
    }
    None
}

proof fn lemma_pairs_push(v: Seq<(String, String)>, l: (String, String))
    ensures
        v.push(l).map_values(|x: (String, String)| (x.0@, x.1@)).to_multiset()
            == v.map_values(|x: (String, String)| (x.0@, x.1@)).to_multiset().insert((l.0@, l.1@)),
{
    let f = |x: (String, String)| (x.0@, x.1@);
    assert(v.push(l).map_values(f) =~= v.map_values(f).push(f(l)));
    vstd::seq_lib::lemma_multiset_commutative(v.map_values(f), seq![f(l)]);
    assert(v.map_values(f).push(f(l)) =~= v.map_values(f) + seq![f(l)]);
    vstd::seq_lib::to_multiset_build(v.map_values(f), f(l));
}

proof fn lemma_pairs_remove(v: Seq<(String, String)>, i: int)
    requires
        0 <= i < v.len(),
    ensures
        v.remove(i).map_values(|x: (String, String)| (x.0@, x.1@)).to_multiset()
            == v.map_values(|x: (String, String)| (x.0@, x.1@)).to_multiset().remove((v[i].0@, v[i].1@)),
{
    let f = |x: (String, String)| (x.0@, x.1@);
    assert(v.remove(i).map_values(f) =~= v.map_values(f).remove(i));
    vstd::seq_lib::to_multiset_remove(v.map_values(f), i);
}

proof fn lemma_absent_count(v: Seq<(String, String)>, u: Seq<char>, c: Seq<char>)
    requires
        forall|i: int| 0 <= i < v.len() ==> !((#[trigger] v[i]).0@ == u && v[i].1@ == c),
    ensures
        v.map_values(|x: (String, String)| (x.0@, x.1@)).to_multiset().count((u, c)) == 0,
{
    let f = |x: (String, String)| (x.0@, x.1@);
    let s = v.map_values(f);
    if s.to_multiset().count((u, c)) > 0 {
        vstd::seq_lib::to_multiset_contains(s, (u, c));
        let j = choose|j: int| 0 <= j < s.len() && s[j] == (u, c);
        assert(v[j].0@ == u && v[j].1@ == c);
    }
}

impl ComradeBook {
    /// Stores a friendship: a link each way.
    pub fn add(&mut self, u: &str, c: &str)
        ensures
            link_set(*final(self)) == added(link_set(*old(self)), u@, c@),
    {
        let ghost v0 = self.links@;
        self.links.push((String::from_str(u), String::from_str(c)));
        proof {
            lemma_pairs_push(v0, self.links@.last());
        }
        let ghost v1 = self.links@;
        self.links.push((String::from_str(c), String::from_str(u)));
        proof {
            lemma_pairs_push(v1, self.links@.last());
        }
    }

    /// Ends a friendship: one link each way is taken out, when there is
    /// one. The result is how many links were taken out.
    pub fn remove(&mut self, u: &str, c: &str) -> (deleted: u64)
        ensures
            link_set(*final(self)) == removed(link_set(*old(self)), u@, c@),
            deleted == (if link_set(*old(self)).count((u@, c@)) > 0 { 1int } else { 0int })
                + (if link_set(*old(self)).remove((u@, c@)).count((c@, u@)) > 0 { 1int } else { 0int }),
    {
        let mut deleted: u64 = 0;
        let ghost m0 = link_set(*self);
        match find_link(&self.links, u, c) {
            Some(i) => {
                let ghost v0 = self.links@;
                self.links.remove(i);
                proof {
                    lemma_pairs_remove(v0, i as int);
                    let s0 = v0.map_values(|x: (String, String)| (x.0@, x.1@));
                    assert(s0[i as int] == (u@, c@));
                    assert(s0.contains((u@, c@)));
                    vstd::seq_lib::to_multiset_contains(s0, (u@, c@));
                }
                deleted = deleted + 1;
            },
            None => {
                proof {
                    lemma_absent_count(self.links@, u@, c@);
                    assert(m0.remove((u@, c@)) =~= m0);
                }
            },
        }
        let ghost m1 = link_set(*self);
        assert(m1 == m0.remove((u@, c@)));
        assert(deleted == (if m0.count((u@, c@)) > 0 { 1int } else { 0int }));
        match find_link(&self.links, c, u) {
            Some(i) => {
                let ghost v1 = self.links@;
                self.links.remove(i);
                proof {
                    lemma_pairs_remove(v1, i as int);
                    let s1 = v1.map_values(|x: (String, String)| (x.0@, x.1@));
                    assert(s1[i as int] == (c@, u@));
                    assert(s1.contains((c@, u@)));
                    vstd::seq_lib::to_multiset_contains(s1, (c@, u@));
                }
                deleted = deleted + 1;
            },
            None => {
                proof {
                    lemma_absent_count(self.links@, c@, u@);
                    assert(m1.remove((c@, u@)) =~= m1);
                }
            },
        }
        deleted
    }
}

/// Friendships stay mutual: when every link has as many links back, adding
/// a friendship keeps it so.
pub proof fn law_add_keeps_mutual(m: Multiset<(Seq<char>, Seq<char>)>, u: Seq<char>, c: Seq<char>)
    requires
        is_mutual(m),
    ensures
        is_mutual(added(m, u, c)),
{
    assert forall|a: Seq<char>, b: Seq<char>| #[trigger] added(m, u, c).count((a, b)) == added(m, u, c).count((b, a)) by {
        assert(m.count((a, b)) == m.count((b, a)));
    }
}

/// Friendships stay mutual: when every link has as many links back,
/// removing a friendship keeps it so.
pub proof fn law_remove_keeps_mutual(m: Multiset<(Seq<char>, Seq<char>)>, u: Seq<char>, c: Seq<char>)
    requires
        is_mutual(m),
    ensures
        is_mutual(removed(m, u, c)),
{
    assert forall|a: Seq<char>, b: Seq<char>| #[trigger] removed(m, u, c).count((a, b)) == removed(m, u, c).count((b, a)) by {
        assert(m.count((a, b)) == m.count((b, a)));
        assert(m.count((u, c)) == m.count((c, u)));
    }
}

/// Removing a new friendship undoes adding it: the links are as before.
pub proof fn law_remove_undoes_add(m: Multiset<(Seq<char>, Seq<char>)>, u: Seq<char>, c: Seq<char>)
    ensures
        removed(added(m, u, c), u, c) == m,
{
    assert(removed(added(m, u, c), u, c) =~= m);
}

/// The most comrades a user has by default.
pub const MAX_COMRADES: u64 = 50;

/// The most comrades a user has after upgrading.
pub const UPGRADED_COMRADE_LIMIT: u64 = 200;

/// A user's comrade figures: how many, how many more may be added, and
/// whether any more may be added.
#[derive(Debug, Clone, Copy, PartialEq, Eq, Structural)]
pub struct ComradeStats {
    pub count: u64,
    pub max_comrades: u64,
    pub remaining: u64,
    pub can_add_more: bool,
}

/// The figures of a user with `count` comrades.
pub fn comrade_stats(count: u64) -> (s: ComradeStats)
    ensures
        s.count == count,
        s.max_comrades == MAX_COMRADES,
        s.remaining == (if count >= MAX_COMRADES { 0 } else { MAX_COMRADES - count }),
        s.can_add_more == (count < MAX_COMRADES),
{
    ComradeStats {
        count,
        max_comrades: MAX_COMRADES,
        remaining: if count >= MAX_COMRADES { 0 } else { MAX_COMRADES - count },
        can_add_more: count < MAX_COMRADES,
    }
}

/// The users a user may still befriend: the indices of the profiles that
/// are neither the user nor on either side of a friendship link of the
/// user's (`links` are the user's links, either way round), in order.
pub fn available_users(user_id: &str, links: &Vec<(String, String)>, profiles: &Vec<String>) -> (r: Vec<usize>)
    ensures
        forall|i: int| 0 <= i < r@.len() ==> (#[trigger] r@[i]) < profiles@.len(),
        forall|i: int, j: int| 0 <= i < j < r@.len() ==> (#[trigger] r@[i]) < (#[trigger] r@[j]),
        forall|k: int| 0 <= k < profiles@.len() ==> (r@.contains(k as usize) <==> (
            profiles@[k]@ != user_id@ && !partners(links@, user_id@).contains(profiles@[k]@))),
{
    let mut r: Vec<usize> = Vec::new();
    let mut k: usize = 0;
    while k < profiles.len()
        invariant
            k <= profiles@.len(),
            forall|i: int| 0 <= i < r@.len() ==> (#[trigger] r@[i]) < k,
            forall|i: int, j: int| 0 <= i < j < r@.len() ==> (#[trigger] r@[i]) < (#[trigger] r@[j]),
            forall|x: int| 0 <= x < k ==> (r@.contains(x as usize) <==> (
                profiles@[x]@ != user_id@ && !partners(links@, user_id@).contains(profiles@[x]@))),
        decreases profiles.len() - k,
    {
        let p = profiles[k].as_str();
        let keep = !str_eq(p, user_id) && !is_partner(links, user_id, p);
        let ghost r0 = r@;
        if keep {
            r.push(k);
        }
        proof {
            assert forall|x: int| 0 <= x < k + 1 implies (r@.contains(x as usize) <==> (
                profiles@[x]@ != user_id@ && !partners(links@, user_id@).contains(profiles@[x]@))) by {
                if x < k {
                    if r@.contains(x as usize) {
                        let j = choose|j: int| 0 <= j < r@.len() && r@[j] == x as usize;
                        if j < r0.len() { assert(r0[j] == x as usize); }
                    }
                    if r0.contains(x as usize) {
                        let j = choose|j: int| 0 <= j < r0.len() && r0[j] == x as usize;
                        assert(r@[j] == x as usize);
                    }
                } else {
                    if keep {
                        assert(r@[r0.len() as int] == k);
                    } else if r@.contains(x as usize) {
                        let j = choose|j: int| 0 <= j < r@.len() && r@[j] == x as usize;
                        assert(r0[j] < k);
                    }
                }
            }
        }
        k = k + 1;
    }
    r
}

/// The ids on the far side of the user's links (either side, other than
/// the user).
pub open spec fn partners(links: Seq<(String, String)>, user: Seq<char>) -> Seq<Seq<char>> {
    links.map_values(|l: (String, String)| l.0@).filter(|x: Seq<char>| x != user)
        + links.map_values(|l: (String, String)| l.1@).filter(|x: Seq<char>| x != user)
}

fn is_partner(links: &Vec<(String, String)>, user: &str, p: &str) -> (r: bool)
    ensures
        r == partners(links@, user@).contains(p@),
{
    let ghost firsts = links@.map_values(|l: (String, String)| l.0@);
    let ghost seconds = links@.map_values(|l: (String, String)| l.1@);
    let ghost notu = |x: Seq<char>| x != user@;
    let mut i: usize = 0;
    while i < links.len()
        invariant
            i <= links@.len(),
            firsts == links@.map_values(|l: (String, String)| l.0@),
            seconds == links@.map_values(|l: (String, String)| l.1@),
            notu == (|x: Seq<char>| x != user@),
            forall|j: int| 0 <= j < i ==> !((#[trigger] links@[j]).0@ != user@ && links@[j].0@ == p@)
                && !(links@[j].1@ != user@ && links@[j].1@ == p@),
        decreases links.len() - i,
    {
        let a = links[i].0.as_str();
        let b = links[i].1.as_str();
        if (!str_eq(a, user) && str_eq(a, p)) || (!str_eq(b, user) && str_eq(b, p)) {
            proof {
                if links@[i as int].0@ != user@ && links@[i as int].0@ == p@ {
                    assert(firsts[i as int] == p@);
                    firsts.lemma_filter_contains(notu, i as int);
                    assert(partners(links@, user@)[firsts.filter(notu).index_of(p@)] == p@) by {
                        assert(firsts.filter(notu).contains(p@));
                    }
                    assert(firsts.filter(notu).contains(p@));
                    let k = firsts.filter(notu).index_of(p@);
                    assert((firsts.filter(notu) + seconds.filter(notu))[k] == p@);
                } else {
                    assert(seconds[i as int] == p@);
                    seconds.lemma_filter_contains(notu, i as int);
                    assert(seconds.filter(notu).contains(p@));
                    let k = seconds.filter(notu).index_of(p@);
                    assert((firsts.filter(notu) + seconds.filter(notu))[firsts.filter(notu).len() + k] == p@);
                }
            }
            return true;
        }
        i = i + 1;
    }
    proof {
        if partners(links@, user@).contains(p@) {
            let all = firsts.filter(notu) + seconds.filter(notu);
            let k = choose|k: int| 0 <= k < all.len() && all[k] == p@;
            if k < firsts.filter(notu).len() {
                assert(firsts.filter(notu).contains(p@));
                firsts.lemma_filter_contains_rev(notu, p@);
                let j = choose|j: int| 0 <= j < firsts.len() && firsts[j] == p@;
                assert(links@[j].0@ == p@);
            } else {
                assert(all[k] == seconds.filter(notu)[k - firsts.filter(notu).len()]);
                assert(seconds.filter(notu).contains(p@));
                seconds.lemma_filter_contains_rev(notu, p@);
                let j = choose|j: int| 0 <= j < seconds.len() && seconds[j] == p@;
                assert(links@[j].1@ == p@);
            }
        }
    }
    false
}

} // verus!
