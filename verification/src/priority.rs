//! The order of the launcher list: favorites first, then the most launched,
//! then by name without regard to case; entries of equal rank keep their order.

use vstd::prelude::*;
use crate::launcher::{ItemView, LauncherItem, views};
use crate::text::{
    chars_of, less_than, lemma_seq_lt_irreflexive, lemma_seq_lt_total, lemma_seq_lt_transitive,
    lowercase, seq_lt, to_lowercase,
};

verus! {

/// Whether `a` is listed before `b`: a favorite before a non-favorite, then a
/// higher launch count first, then the name compared in lowercase.
pub open spec fn ranks_before(a: ItemView, b: ItemView) -> bool {
    ||| a.is_favorite && !b.is_favorite
    ||| a.is_favorite == b.is_favorite && a.launch_count > b.launch_count
    ||| a.is_favorite == b.is_favorite && a.launch_count == b.launch_count && seq_lt(
        lowercase(a.name),
        lowercase(b.name),
    )
}

/// Whether neither of `a` and `b` is listed before the other.
pub open spec fn same_rank(a: ItemView, b: ItemView) -> bool {
    &&& a.is_favorite == b.is_favorite
    &&& a.launch_count == b.launch_count
    &&& lowercase(a.name) == lowercase(b.name)
}

/// The entries of the same rank as `x`.
pub open spec fn rank_of(x: ItemView) -> spec_fn(ItemView) -> bool {
    |y: ItemView| same_rank(y, x)
}

/// No entry is listed before an earlier one.
pub open spec fn in_priority_order(s: Seq<ItemView>) -> bool {
    forall|i: int, j: int| 0 <= i < j < s.len() ==> !ranks_before(#[trigger] s[j], #[trigger] s[i])
}

/// `r` is `s` in priority order, entries of equal rank in the order they have
/// in `s` (what a stable sort by rank gives).
pub open spec fn is_priority_sort_of(r: Seq<ItemView>, s: Seq<ItemView>) -> bool {
    &&& in_priority_order(r)
    &&& forall|x: ItemView| #[trigger] r.filter(rank_of(x)) == s.filter(rank_of(x))
}

/// `ranks_before` orders entries strictly, `same_rank` being the equivalence
/// of the entries that it leaves unordered.
pub proof fn lemma_rank_order(a: ItemView, b: ItemView, c: ItemView)
    ensures
        !ranks_before(a, a),
        ranks_before(a, b) ==> !ranks_before(b, a) && !same_rank(a, b),
        ranks_before(a, b) || ranks_before(b, a) || same_rank(a, b),
        ranks_before(a, b) && ranks_before(b, c) ==> ranks_before(a, c),
        ranks_before(a, b) && same_rank(b, c) ==> ranks_before(a, c),
        same_rank(a, b) && ranks_before(b, c) ==> ranks_before(a, c),
{
    let (la, lb, lc) = (lowercase(a.name), lowercase(b.name), lowercase(c.name));
    lemma_seq_lt_irreflexive(la);
    lemma_seq_lt_irreflexive(lb);
    lemma_seq_lt_total(la, lb);
    if seq_lt(la, lb) && seq_lt(lb, lc) {
        lemma_seq_lt_transitive(la, lb, lc);
    }
}

/// Whether `a` (with lowercase name `ak`) is listed before `b` (with `bk`).
fn ranks_before_exec(a: &LauncherItem, ak: &Vec<char>, b: &LauncherItem, bk: &Vec<char>) -> (r:
    bool)
    requires
        ak@ == lowercase(a.name@),
        bk@ == lowercase(b.name@),
    ensures
        r == ranks_before(a@, b@),
{
    if a.is_favorite != b.is_favorite {
        a.is_favorite
    } else if a.launch_count != b.launch_count {
        a.launch_count > b.launch_count
    } else {
        less_than(ak, bk)
    }
}

/// Filtering a sequence that holds nothing the predicate accepts gives nothing.
proof fn lemma_filter_none(s: Seq<ItemView>, p: spec_fn(ItemView) -> bool)
    requires
        forall|i: int| 0 <= i < s.len() ==> !p(s[i]),
    ensures
        s.filter(p) == Seq::<ItemView>::empty(),
    decreases s.len(),
{
    reveal(Seq::filter);
    if s.len() > 0 {
        lemma_filter_none(s.drop_last(), p);
    }
}

/// Inserting `x` where all before it are not after it and all after it are
/// after it adds `x` to the end of its rank and changes no other rank.
proof fn lemma_insert_keeps_ranks(out: Seq<ItemView>, p: int, x: ItemView, y: ItemView)
    requires
        0 <= p <= out.len(),
        forall|j: int| p <= j < out.len() ==> ranks_before(x, #[trigger] out[j]),
    ensures
        out.insert(p, x).filter(rank_of(y)) == if same_rank(x, y) {
            out.filter(rank_of(y)).push(x)
        } else {
            out.filter(rank_of(y))
        },
{
    broadcast use Seq::lemma_filter_push;

    let f = rank_of(y);
    let pre = out.take(p);
    let post = out.skip(p);
    assert(out =~= pre + post);
    assert(out.insert(p, x) =~= pre.push(x) + post);
    Seq::filter_distributes_over_add(pre.push(x), post, f);
    Seq::filter_distributes_over_add(pre, post, f);
    if same_rank(x, y) {
        assert forall|i: int| 0 <= i < post.len() implies !f(post[i]) by {
            assert(post[i] == out[p + i]);
            lemma_rank_order(x, post[i], y);
            lemma_rank_order(post[i], x, y);
            lemma_rank_order(post[i], y, x);
            lemma_rank_order(y, x, post[i]);
        }
        lemma_filter_none(post, f);
        assert(pre.filter(f).push(x) + post.filter(f) =~= pre.filter(f).push(x));
        assert(pre.filter(f) + post.filter(f) =~= pre.filter(f));
    }
}

/// Sorts `items` into the order of the launcher list: favorites first, then
/// by launch count from most to least, then by name compared in lowercase;
/// entries of equal rank keep their relative order.
pub fn sort_by_priority(items: &mut Vec<LauncherItem>)
    ensures
        is_priority_sort_of(views(final(items)@), views(old(items)@)),
        forall|i: int, j: int|
            0 <= i < j < final(items)@.len() ==> {
                let (a, b) = (#[trigger] views(final(items)@)[i], #[trigger] views(final(items)@)[j]);
                &&& b.is_favorite ==> a.is_favorite
                &&& a.is_favorite == b.is_favorite ==> a.launch_count >= b.launch_count
                &&& a.is_favorite == b.is_favorite && a.launch_count == b.launch_count ==> !seq_lt(
                    lowercase(b.name),
                    lowercase(a.name),
                )
            },
{
    let mut input: Vec<LauncherItem> = Vec::new();
    core::mem::swap(&mut input, items);
    let mut out: Vec<LauncherItem> = Vec::new();
    let mut keys: Vec<Vec<char>> = Vec::new();
    let mut i: usize = 0;
    while i < input.len()
        invariant
            i <= input@.len(),
            out@.len() == keys@.len(),
            forall|j: int| 0 <= j < out@.len() ==> #[trigger] keys@[j]@ == lowercase(out@[j].name@),
            in_priority_order(views(out@)),
            forall|x: ItemView| #[trigger] views(out@).filter(rank_of(x)) == views(
                input@,
            ).take(i as int).filter(rank_of(x)),
        decreases input@.len() - i,
    {
        let item = input[i].duplicate();
        let key = chars_of(&to_lowercase(item.name.as_str()));
        let mut p: usize = 0;
        while p < out.len() && !ranks_before_exec(&item, &key, &out[p], &keys[p])
            invariant
                p <= out@.len(),
                key@ == lowercase(item.name@),
                out@.len() == keys@.len(),
                forall|j: int| 0 <= j < out@.len() ==> #[trigger] keys@[j]@ == lowercase(
                    out@[j].name@,
                ),
                forall|j: int| 0 <= j < p ==> !ranks_before(item@, #[trigger] views(out@)[j]),
            decreases out@.len() - p,
        {
            p = p + 1;
        }
        let ghost old_out = views(out@);
        proof {
            assert forall|j: int| p <= j < old_out.len() implies ranks_before(
                item@,
                #[trigger] old_out[j],
            ) by {
                if j > p {
                    assert(!ranks_before(old_out[j], old_out[p as int]));
                    lemma_rank_order(item@, old_out[p as int], old_out[j]);
                    lemma_rank_order(old_out[p as int], old_out[j], item@);
                }
            }
        }
        let ghost old_keys = keys@;
        let ghost old_items = out@;
        out.insert(p, item);
        keys.insert(p, key);
        proof {
            let new_out = views(out@);
            assert(new_out =~= old_out.insert(p as int, item@));
            assert forall|a: int, b: int| 0 <= a < b < new_out.len() implies !ranks_before(
                #[trigger] new_out[b],
                #[trigger] new_out[a],
            ) by {
                if b < p {
                    assert(new_out[a] == old_out[a] && new_out[b] == old_out[b]);
                } else if b == p {
                    assert(new_out[a] == old_out[a]);
                } else if a == p {
                    assert(new_out[b] == old_out[b - 1]);
                    lemma_rank_order(item@, old_out[b - 1], item@);
                } else if a < p {
                    assert(new_out[a] == old_out[a] && new_out[b] == old_out[b - 1]);
                    if !(a < b - 1) {
                        assert(b - 1 == a);
                    }
                    assert(!ranks_before(old_out[b - 1], old_out[a]) || b - 1 == a);
                    if b - 1 == a {
                        lemma_rank_order(old_out[a], old_out[a], old_out[a]);
                    }
                } else {
                    assert(new_out[a] == old_out[a - 1] && new_out[b] == old_out[b - 1]);
                }
            }
            let s = views(input@);
            assert(s.take(i + 1) =~= s.take(i as int).push(item@));
            assert forall|x: ItemView| #[trigger] new_out.filter(rank_of(x)) == s.take(i + 1).filter(
                rank_of(x),
            ) by {
                lemma_insert_keeps_ranks(old_out, p as int, item@, x);
                s.take(i as int).lemma_filter_push(item@, rank_of(x));
            }
            assert forall|j: int| 0 <= j < out@.len() implies #[trigger] keys@[j]@ == lowercase(
                out@[j].name@,
            ) by {
                if j > p {
                    assert(keys@[j] == old_keys[j - 1]);
                    assert(out@[j] == old_items[j - 1]);
                } else if j < p {
                    assert(keys@[j] == old_keys[j]);
                    assert(out@[j] == old_items[j]);
                }
            }
        }
        i = i + 1;
    }
    assert(views(input@).take(input@.len() as int) =~= views(input@));
    proof {
        law_priority_order(views(out@), views(input@));
    }
    *items = out;
}


/// An entry occurs in a sequence as often as in the part of it of its rank.
proof fn lemma_count_in_rank(s: Seq<ItemView>, x: ItemView)
    ensures
        s.to_multiset().count(x) == s.filter(rank_of(x)).to_multiset().count(x),
    decreases s.len(),
{
    broadcast use vstd::seq_lib::to_multiset_build;
    broadcast use vstd::multiset::group_multiset_axioms;

    if s.len() == 0 {
        reveal(Seq::filter);
        assert(s.filter(rank_of(x)) =~= s);
    } else {
        let t = s.drop_last();
        let e = s.last();
        assert(t.push(e) =~= s);
        lemma_count_in_rank(t, x);
        t.lemma_filter_push(e, rank_of(x));
    }
}

/// A priority sort of `s` holds the same entries as `s`, as often.
pub proof fn law_priority_sort_is_permutation(r: Seq<ItemView>, s: Seq<ItemView>)
    requires
        is_priority_sort_of(r, s),
    ensures
        r.to_multiset() == s.to_multiset(),
        r.len() == s.len(),
{
    assert forall|x: ItemView| r.to_multiset().count(x) == s.to_multiset().count(x) by {
        lemma_count_in_rank(r, x);
        lemma_count_in_rank(s, x);
        assert(r.filter(rank_of(x)) == s.filter(rank_of(x)));
    }
    assert(r.to_multiset() =~= s.to_multiset());
    r.to_multiset_ensures();
    s.to_multiset_ensures();
}


/// In a priority sort, a favorite never follows a non-favorite; among entries
/// with the same mark, one launched more often never follows one launched less
/// often, whatever their names; and only when the mark and the count are equal
/// does the lowercase name decide, in increasing order.
pub proof fn law_priority_order(r: Seq<ItemView>, s: Seq<ItemView>)
    requires
        is_priority_sort_of(r, s),
    ensures
        forall|i: int, j: int|
            0 <= i < j < r.len() ==> {
                let (a, b) = (#[trigger] r[i], #[trigger] r[j]);
                &&& b.is_favorite ==> a.is_favorite
                &&& a.is_favorite == b.is_favorite ==> a.launch_count >= b.launch_count
                &&& a.is_favorite == b.is_favorite && a.launch_count == b.launch_count ==> !seq_lt(
                    lowercase(b.name),
                    lowercase(a.name),
                )
            },
{
    assert forall|i: int, j: int| 0 <= i < j < r.len() implies {
        let (a, b) = (#[trigger] r[i], #[trigger] r[j]);
        &&& b.is_favorite ==> a.is_favorite
        &&& a.is_favorite == b.is_favorite ==> a.launch_count >= b.launch_count
        &&& a.is_favorite == b.is_favorite && a.launch_count == b.launch_count ==> !seq_lt(
            lowercase(b.name),
            lowercase(a.name),
        )
    } by {
        assert(!ranks_before(r[j], r[i]));
    }
}

} // verus!
