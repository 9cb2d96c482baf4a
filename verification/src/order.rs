//! Orderings used by lists: text in dictionary order (character by
//! character, as `String`'s ordering compares), and stable sorts of item
//! indices by a text or number key.

use vstd::prelude::*;

verus! {

/// `a` comes before `b` in dictionary order: at the first character where
/// they differ, `a`'s is smaller, or `a` is a proper prefix of `b`.
pub open spec fn text_lt(a: Seq<char>, b: Seq<char>) -> bool
    decreases a.len(),
{
    if a.len() == 0 {
        b.len() > 0
    } else if b.len() == 0 {
        false
    } else if a[0] != b[0] {
        a[0] < b[0]
    } else {
        text_lt(a.drop_first(), b.drop_first())
    }
}

proof fn lemma_text_irreflexive(a: Seq<char>)
    ensures
        !text_lt(a, a),
    decreases a.len(),
{
    if a.len() > 0 {
        lemma_text_irreflexive(a.drop_first());
    }
}

proof fn lemma_text_total(a: Seq<char>, b: Seq<char>)
    ensures
        a == b || text_lt(a, b) || text_lt(b, a),
        !(text_lt(a, b) && text_lt(b, a)),
    decreases a.len(),
{
    if a.len() == 0 && b.len() == 0 {
        assert(a =~= b);
    }
    if a.len() > 0 && b.len() > 0 {
        lemma_text_total(a.drop_first(), b.drop_first());
        if a[0] == b[0] && a.drop_first() == b.drop_first() {
            assert(a =~= seq![a[0]] + a.drop_first());
            assert(b =~= seq![b[0]] + b.drop_first());
        }
    }
}

proof fn lemma_text_transitive(a: Seq<char>, b: Seq<char>, c: Seq<char>)
    ensures
        text_lt(a, b) && text_lt(b, c) ==> text_lt(a, c),
    decreases a.len(),
{
    if a.len() > 0 && b.len() > 0 && c.len() > 0 {
        lemma_text_transitive(a.drop_first(), b.drop_first(), c.drop_first());
    }
}

/// Dictionary order is a strict total order: never `a < a`, transitive, and
/// any two texts are equal or ordered exactly one way.
pub proof fn lemma_text_order(a: Seq<char>, b: Seq<char>, c: Seq<char>)
    ensures
        !text_lt(a, a),
        text_lt(a, b) && text_lt(b, c) ==> text_lt(a, c),
        a == b || text_lt(a, b) || text_lt(b, a),
        !(text_lt(a, b) && text_lt(b, a)),
{
    lemma_text_irreflexive(a);
    lemma_text_transitive(a, b, c);
    lemma_text_total(a, b);
}

/// Compares two texts in dictionary order.
pub fn text_less(a: &str, b: &str) -> (r: bool)
    ensures
        r == text_lt(a@, b@),
{
    let n = a.unicode_len();
    let m = b.unicode_len();
    let mut i: usize = 0;
    assert(a@.skip(0) =~= a@);
    assert(b@.skip(0) =~= b@);
    while i < n && i < m
        invariant
            n == a@.len(),
            m == b@.len(),
            i <= n && i <= m,
            text_lt(a@.skip(i as int), b@.skip(i as int)) == text_lt(a@, b@),
        decreases n - i,
    {
        let x = a.get_char(i);
        let y = b.get_char(i);
        proof {
            assert(a@.skip(i as int)[0] == x);
            assert(b@.skip(i as int)[0] == y);
            assert(a@.skip(i as int).drop_first() =~= a@.skip(i + 1));
            assert(b@.skip(i as int).drop_first() =~= b@.skip(i + 1));
        }
        if x != y {
            return x < y;
        }
        i = i + 1;
    }
    proof {
        assert(a@.skip(i as int).len() == n - i);
        assert(b@.skip(i as int).len() == m - i);
    }
    i == n && i < m
}

/// Item `a` is listed before item `b` (indices into `keys`): its key comes
/// first in the chosen direction, or the keys are equal and `a` came first.
pub open spec fn text_before(keys: Seq<Seq<char>>, a: int, b: int, descending: bool) -> bool {
    if descending {
        text_lt(keys[b], keys[a]) || (keys[a] == keys[b] && a < b)
    } else {
        text_lt(keys[a], keys[b]) || (keys[a] == keys[b] && a < b)
    }
}

/// `order` lists the items `members` (indices into `keys`) each once, in
/// `text_before` order.
pub open spec fn is_text_order(keys: Seq<Seq<char>>, members: Seq<usize>, order: Seq<usize>, descending: bool) -> bool {
    &&& order.len() == members.len()
    &&& forall|i: int| 0 <= i < order.len() ==> members.contains(#[trigger] order[i])
    &&& forall|i: int, j: int| 0 <= i < j < order.len()
        ==> text_before(keys, #[trigger] order[i] as int, #[trigger] order[j] as int, descending)
}

/// Item `k` is to be listed before item `x` when inserted among earlier
/// items: its key comes strictly first in the chosen direction.
fn goes_after(keys: &Vec<String>, k: usize, x: usize, descending: bool) -> (r: bool)
    requires
        k < keys@.len(),
        x < keys@.len(),
    ensures
        r == (if descending {
            text_lt(keys@[x as int]@, keys@[k as int]@)
        } else {
            text_lt(keys@[k as int]@, keys@[x as int]@)
        }),
{
    if descending {
        text_less(keys[x].as_str(), keys[k].as_str())
    } else {
        text_less(keys[k].as_str(), keys[x].as_str())
    }
}

/// Sorts the items `members` (strictly increasing indices into `keys`) by
/// their keys, ascending or descending; items with equal keys keep their
/// order.
pub fn order_by_text(keys: &Vec<String>, members: &Vec<usize>, descending: bool) -> (order: Vec<usize>)
    requires
        forall|i: int| 0 <= i < members@.len() ==> (#[trigger] members@[i]) < keys@.len(),
        forall|i: int, j: int| 0 <= i < j < members@.len() ==> (#[trigger] members@[i]) < (#[trigger] members@[j]),
    ensures
        is_text_order(crate::text::views(keys@), members@, order@, descending),
{
    let ghost ks = crate::text::views(keys@);
    let mut order: Vec<usize> = Vec::new();
    let mut m: usize = 0;
    while m < members.len()
        invariant
            ks == crate::text::views(keys@),
            m <= members@.len(),
            forall|i: int| 0 <= i < members@.len() ==> (#[trigger] members@[i]) < keys@.len(),
            forall|i: int, j: int| 0 <= i < j < members@.len() ==> (#[trigger] members@[i]) < (#[trigger] members@[j]),
            order@.len() == m,
            forall|i: int| 0 <= i < order@.len() ==> members@.take(m as int).contains(#[trigger] order@[i]),
            forall|i: int, j: int| 0 <= i < j < order@.len()
                ==> text_before(ks, #[trigger] order@[i] as int, #[trigger] order@[j] as int, descending),
        decreases members.len() - m,
    {
        let k = members[m];
        let kk = keys[k].as_str();
        let mut p: usize = 0;
        while p < order.len() && !goes_after(keys, k, order[p], descending)
            invariant
                ks == crate::text::views(keys@),
                p <= order@.len(),
                k < keys@.len(),
                kk@ == ks[k as int],
                forall|i: int| 0 <= i < order@.len() ==> (#[trigger] order@[i]) < keys@.len(),
                forall|q: int| 0 <= q < p ==> !(if descending {
                    text_lt(ks[#[trigger] order@[q] as int], ks[k as int])
                } else {
                    text_lt(ks[k as int], ks[order@[q] as int])
                }),
            decreases order.len() - p,
        {
            p = p + 1;
        }
        proof {
            // every index listed so far is an earlier member, hence smaller
            assert forall|i: int| 0 <= i < order@.len() implies (#[trigger] order@[i]) < k by {
                let j = choose|j: int| 0 <= j < m && members@.take(m as int)[j] == order@[i];
                assert(members@[j] < members@[m as int]);
            }
        }
        let ghost old_order = order@;
        order.insert(p, k);
        proof {
            assert forall|i: int| 0 <= i < order@.len() implies members@.take(m + 1).contains(#[trigger] order@[i]) by {
                if i < p {
                    assert(order@[i] == old_order[i]);
                    let j = choose|j: int| 0 <= j < m && members@.take(m as int)[j] == old_order[i];
                    assert(members@.take(m + 1)[j] == old_order[i]);
                } else if i > p {
                    assert(order@[i] == old_order[i - 1]);
                    let j = choose|j: int| 0 <= j < m && members@.take(m as int)[j] == old_order[i - 1];
                    assert(members@.take(m + 1)[j] == old_order[i - 1]);
                } else {
                    assert(members@.take(m + 1)[m as int] == k);
                }
            }
            assert forall|i: int, j: int| 0 <= i < j < order@.len()
                implies text_before(ks, #[trigger] order@[i] as int, #[trigger] order@[j] as int, descending) by {
                if j < p {
                    assert(order@[i] == old_order[i] && order@[j] == old_order[j]);
                } else if j == p {
                    let a = old_order[i];
                    assert(order@[i] == a);
                    assert(a < k);
                    lemma_text_order(ks[a as int], ks[k as int], ks[k as int]);
                } else if i == p {
                    let b = old_order[j - 1];
                    assert(order@[j] == b);
                    assert(b < k);
                    let c = old_order[p as int];
                    // the item at the insertion point is strictly after `k`, and
                    // every later one is no earlier than it
                    if j - 1 > p {
                        assert(text_before(ks, c as int, b as int, descending));
                    }
                    lemma_text_order(ks[k as int], ks[c as int], ks[b as int]);
                    lemma_text_order(ks[b as int], ks[c as int], ks[k as int]);
                } else if i < p {
                    assert(order@[i] == old_order[i] && order@[j] == old_order[j - 1]);
                } else {
                    assert(order@[i] == old_order[i - 1] && order@[j] == old_order[j - 1]);
                }
            }
        }
        m = m + 1;
    }
    proof {
        assert(members@.take(members@.len() as int) =~= members@);
    }
    order
}

/// Item `a` is listed before item `b` (indices into `keys`): its time comes
/// first in the chosen direction, or the times are equal and `a` came first.
pub open spec fn time_before(keys: Seq<i64>, a: int, b: int, descending: bool) -> bool {
    if descending {
        keys[b] < keys[a] || (keys[a] == keys[b] && a < b)
    } else {
        keys[a] < keys[b] || (keys[a] == keys[b] && a < b)
    }
}

/// `order` lists the items `members` (indices into `keys`) each once, in
/// `time_before` order.
pub open spec fn is_time_order(keys: Seq<i64>, members: Seq<usize>, order: Seq<usize>, descending: bool) -> bool {
    &&& order.len() == members.len()
    &&& forall|i: int| 0 <= i < order.len() ==> members.contains(#[trigger] order[i])
    &&& forall|i: int, j: int| 0 <= i < j < order.len()
        ==> time_before(keys, #[trigger] order[i] as int, #[trigger] order[j] as int, descending)
}

/// Item `k` is to be listed before item `x` when inserted among earlier
/// items: its time comes strictly first in the chosen direction.
fn time_goes_after(keys: &Vec<i64>, k: usize, x: usize, descending: bool) -> (r: bool)
    requires
        k < keys@.len(),
        x < keys@.len(),
    ensures
        r == (if descending { keys@[x as int] < keys@[k as int] } else { keys@[k as int] < keys@[x as int] }),
{
    if descending {
        keys[x] < keys[k]
    } else {
        keys[k] < keys[x]
    }
}

/// Sorts the items `members` (strictly increasing indices into `keys`) by
/// their times, oldest or newest first; items with equal times keep their
/// order.
pub fn order_by_time(keys: &Vec<i64>, members: &Vec<usize>, descending: bool) -> (order: Vec<usize>)
    requires
        forall|i: int| 0 <= i < members@.len() ==> (#[trigger] members@[i]) < keys@.len(),
        forall|i: int, j: int| 0 <= i < j < members@.len() ==> (#[trigger] members@[i]) < (#[trigger] members@[j]),
    ensures
        is_time_order(keys@, members@, order@, descending),
{
    let ghost ks = keys@;
    let mut order: Vec<usize> = Vec::new();
    let mut m: usize = 0;
    while m < members.len()
        invariant
            ks == keys@,
            m <= members@.len(),
            forall|i: int| 0 <= i < members@.len() ==> (#[trigger] members@[i]) < keys@.len(),
            forall|i: int, j: int| 0 <= i < j < members@.len() ==> (#[trigger] members@[i]) < (#[trigger] members@[j]),
            order@.len() == m,
            forall|i: int| 0 <= i < order@.len() ==> members@.take(m as int).contains(#[trigger] order@[i]),
            forall|i: int, j: int| 0 <= i < j < order@.len()
                ==> time_before(ks, #[trigger] order@[i] as int, #[trigger] order@[j] as int, descending),
        decreases members.len() - m,
    {
        let k = members[m];
        let mut p: usize = 0;
        while p < order.len() && !time_goes_after(keys, k, order[p], descending)
            invariant
                ks == keys@,
                p <= order@.len(),
                k < keys@.len(),
                forall|i: int| 0 <= i < order@.len() ==> (#[trigger] order@[i]) < keys@.len(),
                forall|q: int| 0 <= q < p ==> !(if descending {
                    ks[#[trigger] order@[q] as int] < ks[k as int]
                } else {
                    ks[k as int] < ks[order@[q] as int]
                }),
            decreases order.len() - p,
        {
            p = p + 1;
        }
        proof {
            assert forall|i: int| 0 <= i < order@.len() implies (#[trigger] order@[i]) < k by {
                let j = choose|j: int| 0 <= j < m && members@.take(m as int)[j] == order@[i];
                assert(members@[j] < members@[m as int]);
            }
        }
        let ghost old_order = order@;
        order.insert(p, k);
        proof {
            assert forall|i: int| 0 <= i < order@.len() implies members@.take(m + 1).contains(#[trigger] order@[i]) by {
                if i < p {
                    assert(order@[i] == old_order[i]);
                    let j = choose|j: int| 0 <= j < m && members@.take(m as int)[j] == old_order[i];
                    assert(members@.take(m + 1)[j] == old_order[i]);
                } else if i > p {
                    assert(order@[i] == old_order[i - 1]);
                    let j = choose|j: int| 0 <= j < m && members@.take(m as int)[j] == old_order[i - 1];
                    assert(members@.take(m + 1)[j] == old_order[i - 1]);
                } else {
                    assert(members@.take(m + 1)[m as int] == k);
                }
            }
            assert forall|i: int, j: int| 0 <= i < j < order@.len()
                implies time_before(ks, #[trigger] order@[i] as int, #[trigger] order@[j] as int, descending) by {
                if j < p {
                    assert(order@[i] == old_order[i] && order@[j] == old_order[j]);
                } else if j == p {
                    let a = old_order[i];
                    assert(order@[i] == a);
                    assert(a < k);
                } else if i == p {
                    let b = old_order[j - 1];
                    assert(order@[j] == b);
                    assert(b < k);
                    let c = old_order[p as int];
                    if j - 1 > p {
                        assert(time_before(ks, c as int, b as int, descending));
                    }
                } else if i < p {
                    assert(order@[i] == old_order[i] && order@[j] == old_order[j - 1]);
                } else {
                    assert(order@[i] == old_order[i - 1] && order@[j] == old_order[j - 1]);
                }
            }
        }
        m = m + 1;
    }
    proof {
        assert(members@.take(members@.len() as int) =~= members@);
    }
    order
}

/// A time ordering of the items lists every one of them: it has as many
/// entries as there are items, none twice, and each one of the items.
pub proof fn lemma_time_order_covers(keys: Seq<i64>, members: Seq<usize>, order: Seq<usize>, descending: bool)
    requires
        is_time_order(keys, members, order, descending),
        forall|i: int, j: int| 0 <= i < j < members.len() ==> (#[trigger] members[i]) < (#[trigger] members[j]),
    ensures
        forall|x: usize| members.contains(x) ==> #[trigger] order.contains(x),
{
    broadcast use vstd::seq_lib::seq_to_set_is_finite;
    assert(order.no_duplicates()) by {
        assert forall|i: int, j: int| 0 <= i < order.len() && 0 <= j < order.len() && i != j
            implies order[i] != order[j] by {
            if i < j {
                assert(time_before(keys, order[i] as int, order[j] as int, descending));
            } else {
                assert(time_before(keys, order[j] as int, order[i] as int, descending));
            }
        }
    }
    assert(members.no_duplicates()) by {
        assert forall|i: int, j: int| 0 <= i < members.len() && 0 <= j < members.len() && i != j
            implies members[i] != members[j] by {
            if i < j {
                assert(members[i] < members[j]);
            } else {
                assert(members[j] < members[i]);
            }
        }
    }
    order.unique_seq_to_set();
    members.unique_seq_to_set();
    assert(order.to_set().subset_of(members.to_set()));
    vstd::set_lib::lemma_subset_equality(order.to_set(), members.to_set());
    assert forall|x: usize| members.contains(x) implies #[trigger] order.contains(x) by {
        assert(members.to_set().contains(x));
        assert(order.to_set().contains(x));
    }
}

/// Sorts the items `members` (strictly increasing indices into `keys`) by
/// their times, oldest or newest first, equal times in index order: every
/// item is listed, once.
pub fn sort_by_time(keys: &Vec<i64>, members: &Vec<usize>, descending: bool) -> (order: Vec<usize>)
    requires
        forall|i: int| 0 <= i < members@.len() ==> (#[trigger] members@[i]) < keys@.len(),
        forall|i: int, j: int| 0 <= i < j < members@.len() ==> (#[trigger] members@[i]) < (#[trigger] members@[j]),
    ensures
        order@.len() == members@.len(),
        forall|x: usize| #[trigger] order@.contains(x) <==> members@.contains(x),
        forall|i: int| 0 <= i < order@.len() ==> (#[trigger] order@[i]) < keys@.len(),
        forall|i: int, j: int| 0 <= i < j < order@.len()
            ==> time_before(keys@, #[trigger] order@[i] as int, #[trigger] order@[j] as int, descending),
{
    let order = order_by_time(keys, members, descending);
    proof {
        lemma_time_order_covers(keys@, members@, order@, descending);
        assert forall|x: usize| #[trigger] order@.contains(x) implies members@.contains(x) by {
            let i = choose|i: int| 0 <= i < order@.len() && order@[i] == x;
            assert(members@.contains(order@[i]));
        }
        assert forall|i: int| 0 <= i < order@.len() implies (#[trigger] order@[i]) < keys@.len() by {
            assert(members@.contains(order@[i]));
        }
    }
    order
}

/// Adding index `i` to a list of indices: the list then holds what it held
/// and `i`.
pub proof fn lemma_push_contains(old: Seq<usize>, i: usize)
    ensures
        forall|x: usize| #[trigger] old.push(i).contains(x) <==> (old.contains(x) || x == i),
{
    assert forall|x: usize| #[trigger] old.push(i).contains(x) <==> (old.contains(x) || x == i) by {
        if old.contains(x) {
            let k = choose|k: int| 0 <= k < old.len() && old[k] == x;
            assert(old.push(i)[k] == x);
        }
        if x == i {
            assert(old.push(i)[old.len() as int] == i);
        }
        if old.push(i).contains(x) {
            let k = choose|k: int| 0 <= k < old.len() + 1 && old.push(i)[k] == x;
            if k < old.len() {
                assert(old[k] == x);
            }
        }
    }
}

} // verus!
