//! Facts on lists that are built one item at a time.
use vstd::prelude::*;

verus! {

/// What `filter_map` keeps of one item more.
pub proof fn lemma_filter_map_push<A, B>(list: Seq<A>, f: spec_fn(A) -> Option<B>, k: int)
    requires
        0 <= k < list.len(),
    ensures
        list.take(k + 1).filter_map(f) == match f(list[k]) {
            Some(b) => list.take(k).filter_map(f).push(b),
            None => list.take(k).filter_map(f),
        },
{
    assert(list.take(k + 1).drop_last() =~= list.take(k));
    match f(list[k]) {
        Some(b) => {
            assert(list.take(k).filter_map(f) + seq![b] =~= list.take(k).filter_map(f).push(b));
        },
        None => {},
    }
}

/// `filter_map` goes through two lists one after the other.
pub proof fn lemma_filter_map_add<A, B>(a: Seq<A>, b: Seq<A>, f: spec_fn(A) -> Option<B>)
    ensures
        (a + b).filter_map(f) == a.filter_map(f) + b.filter_map(f),
    decreases b.len(),
{
    if b.len() == 0 {
        assert(a + b =~= a);
        assert(b.filter_map(f) =~= Seq::empty());
        assert(a.filter_map(f) + Seq::empty() =~= a.filter_map(f));
    } else {
        lemma_filter_map_add(a, b.drop_last(), f);
        assert((a + b).drop_last() =~= a + b.drop_last());
        assert((a + b).last() == b.last());
        match f(b.last()) {
            Some(x) => {
                assert(a.filter_map(f) + b.drop_last().filter_map(f) + seq![x] =~= a.filter_map(f)
                    + (b.drop_last().filter_map(f) + seq![x]));
            },
            None => {},
        }
    }
}

/// What `filter_map` makes of an item of a list is in the result.
pub proof fn lemma_filter_map_keeps<A, B>(list: Seq<A>, f: spec_fn(A) -> Option<B>, i: int)
    requires
        0 <= i < list.len(),
        f(list[i]) is Some,
    ensures
        list.filter_map(f).contains(f(list[i])->0),
    decreases list.len(),
{
    let b = f(list[i])->0;
    let shorter = list.drop_last();
    if i == list.len() - 1 {
        let all = list.filter_map(f);
        assert(all == shorter.filter_map(f) + seq![b]);
        assert(all.last() == b);
    } else {
        lemma_filter_map_keeps(shorter, f, i);
        let before = shorter.filter_map(f);
        let k = choose|k: int| 0 <= k < before.len() && before[k] == b;
        assert(list.filter_map(f)[k] == b);
    }
}

} // verus!
