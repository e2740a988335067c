//! Sorting by rank, highest first, with equals kept in their order.
use vstd::prelude::*;

verus! {

/// Something that has a rank to be sorted by.
pub trait Rank: Sized {
    /// The rank.
    spec fn rank(&self) -> int;
}

/// Something whose rank can be read.
pub trait Ranked: Rank {
    /// The rank.
    fn rank_value(&self) -> (r: i128)
        ensures
            r == self.rank(),
    ;
}

/// A sequence in descending order with one item put in its place: behind
/// every item of the same or a higher rank.
pub open spec fn insert_desc<T: Rank>(s: Seq<T>, x: T) -> Seq<T>
    decreases s.len(),
{
    if s.len() == 0 {
        seq![x]
    } else if s.last().rank() >= x.rank() {
        s.push(x)
    } else {
        insert_desc(s.drop_last(), x).push(s.last())
    }
}

/// A sequence sorted by rank, highest first, items of one rank in their
/// order of appearance.
pub open spec fn sorted_desc<T: Rank>(s: Seq<T>) -> Seq<T>
    decreases s.len(),
{
    if s.len() == 0 {
        s
    } else {
        insert_desc(sorted_desc(s.drop_last()), s.last())
    }
}

/// Whether a sequence is in descending order of rank.
pub open spec fn is_descending<T: Rank>(s: Seq<T>) -> bool {
    forall|i: int, j: int| 0 <= i <= j < s.len() ==> s[i].rank() >= s[j].rank()
}

/// Putting an item in its place splits the sequence before the first item
/// of a lower rank.
pub proof fn lemma_insert_desc_at<T: Rank>(s: Seq<T>, x: T, at: int)
    requires
        0 <= at <= s.len(),
        forall|k: int| at <= k < s.len() ==> s[k].rank() < x.rank(),
        at > 0 ==> s[at - 1].rank() >= x.rank(),
    ensures
        insert_desc(s, x) == s.subrange(0, at).push(x) + s.subrange(at, s.len() as int),
    decreases s.len(),
{
    let want = s.subrange(0, at).push(x) + s.subrange(at, s.len() as int);
    if s.len() == 0 {
        assert(want =~= seq![x]);
    } else if at == s.len() {
        assert(want =~= s.push(x));
    } else {
        let rest = s.drop_last();
        lemma_insert_desc_at(rest, x, at);
        assert(want =~= (rest.subrange(0, at).push(x) + rest.subrange(at, rest.len() as int)).push(
            s.last(),
        ));
    }
}

/// Putting an item in its place keeps a descending sequence descending,
/// and keeps all its items.
pub proof fn lemma_insert_desc_sorted<T: Rank>(s: Seq<T>, x: T)
    requires
        is_descending(s),
    ensures
        is_descending(insert_desc(s, x)),
        insert_desc(s, x).len() == s.len() + 1,
        insert_desc(s, x).to_multiset() == s.to_multiset().insert(x),
    decreases s.len(),
{
    broadcast use vstd::seq_lib::group_to_multiset_ensures;

    if s.len() == 0 {
    } else if s.last().rank() >= x.rank() {
        let out = s.push(x);
        assert forall|i: int, j: int| 0 <= i <= j < out.len() implies out[i].rank()
            >= out[j].rank() by {
            if j == s.len() && i < s.len() {
                assert(s[i].rank() >= s[s.len() - 1].rank());
            }
        }
    } else {
        let rest = s.drop_last();
        assert(is_descending(rest));
        lemma_insert_desc_sorted(rest, x);
        let inner = insert_desc(rest, x);
        let out = inner.push(s.last());
        assert forall|i: int, j: int| 0 <= i <= j < out.len() implies out[i].rank()
            >= out[j].rank() by {
            if j == inner.len() && i < inner.len() {
                assert(inner.to_multiset().count(inner[i]) > 0);
                if inner[i] == x {
                } else {
                    assert(rest.to_multiset().count(inner[i]) > 0);
                    assert(rest.contains(inner[i]));
                    let k = choose|k: int| 0 <= k < rest.len() && rest[k] == inner[i];
                    assert(s[k].rank() >= s[s.len() - 1].rank());
                }
            }
        }
        assert(s =~= rest.push(s.last()));
        assert(out.to_multiset() =~= s.to_multiset().insert(x));
    }
}

/// A sorted sequence is in descending order and holds exactly the items
/// of the sequence it was sorted from.
pub proof fn lemma_sorted_desc<T: Rank>(s: Seq<T>)
    ensures
        is_descending(sorted_desc(s)),
        sorted_desc(s).len() == s.len(),
        sorted_desc(s).to_multiset() == s.to_multiset(),
    decreases s.len(),
{
    broadcast use vstd::seq_lib::group_to_multiset_ensures;

    if s.len() > 0 {
        lemma_sorted_desc(s.drop_last());
        lemma_insert_desc_sorted(sorted_desc(s.drop_last()), s.last());
        assert(s =~= s.drop_last().push(s.last()));
    }
}

/// Putting an item in its place commutes with a mapping that keeps ranks.
pub proof fn lemma_insert_desc_maps<T: Rank, U: Rank>(s: Seq<T>, x: T, f: spec_fn(T) -> U)
    requires
        forall|t: T| #[trigger] f(t).rank() == t.rank(),
    ensures
        insert_desc(s, x).map_values(f) == insert_desc(s.map_values(f), f(x)),
    decreases s.len(),
{
    let mapped = s.map_values(f);
    if s.len() == 0 {
        assert(seq![x].map_values(f) =~= seq![f(x)]);
    } else if s.last().rank() >= x.rank() {
        assert(mapped.last() == f(s.last()));
        assert(s.push(x).map_values(f) =~= mapped.push(f(x)));
    } else {
        assert(mapped.last() == f(s.last()));
        lemma_insert_desc_maps(s.drop_last(), x, f);
        assert(s.drop_last().map_values(f) =~= mapped.drop_last());
        assert(insert_desc(s.drop_last(), x).push(s.last()).map_values(f) =~= insert_desc(
            s.drop_last(),
            x,
        ).map_values(f).push(f(s.last())));
    }
}

/// Sorting commutes with a mapping that keeps ranks.
pub proof fn lemma_sorted_desc_maps<T: Rank, U: Rank>(s: Seq<T>, f: spec_fn(T) -> U)
    requires
        forall|t: T| #[trigger] f(t).rank() == t.rank(),
    ensures
        sorted_desc(s).map_values(f) == sorted_desc(s.map_values(f)),
    decreases s.len(),
{
    let mapped = s.map_values(f);
    if s.len() == 0 {
        assert(s.map_values(f) =~= Seq::<U>::empty());
        assert(sorted_desc(s).map_values(f) =~= Seq::<U>::empty());
    } else {
        lemma_sorted_desc_maps(s.drop_last(), f);
        lemma_insert_desc_maps(sorted_desc(s.drop_last()), s.last(), f);
        assert(s.drop_last().map_values(f) =~= mapped.drop_last());
        assert(mapped.last() == f(s.last()));
    }
}

/// Sorts by rank, highest first, keeping items of one rank in their order.
pub fn sort_descending<T: Ranked>(items: Vec<T>) -> (sorted: Vec<T>)
    ensures
        sorted@ == sorted_desc(items@),
{
    let ghost all = items@;
    let mut items = items;
    let mut out: Vec<T> = Vec::new();
    while items.len() > 0
        invariant
            out.len() + items.len() == all.len(),
            out@ == sorted_desc(all.subrange(0, out.len() as int)),
            items@ == all.subrange(out.len() as int, all.len() as int),
        decreases items.len(),
    {
        let ghost done = out.len() as int;
        let x = items.remove(0);
        let rank = x.rank_value();
        let mut at: usize = out.len();
        while at > 0 && out[at - 1].rank_value() < rank
            invariant
                at <= out.len(),
                rank == x.rank(),
                forall|k: int| at <= k < out.len() ==> out@[k].rank() < x.rank(),
            decreases at,
        {
            at -= 1;
        }
        proof {
            lemma_insert_desc_at(out@, x, at as int);
            assert(x == all[done]);
            assert(all.subrange(0, done + 1).drop_last() =~= all.subrange(0, done));
            assert(all.subrange(0, done + 1).last() == x);
        }
        let ghost before = out@;
        out.insert(at, x);
        proof {
            assert(out@ =~= before.subrange(0, at as int).push(x) + before.subrange(
                at as int,
                before.len() as int,
            ));
            assert(items@ =~= all.subrange(done + 1, all.len() as int));
        }
    }
    assert(all.subrange(0, all.len() as int) =~= all);
    out
}

} // verus!
