//! Searching lists, and filtering them in place.

use vstd::prelude::*;

verus! {

/// Whether a list holds an identity.
pub fn contains(ids: &Vec<u64>, id: u64) -> (res: bool)
    ensures
        res == ids@.contains(id),
{
    let mut i: usize = 0;
    while i < ids.len()
        invariant
            i <= ids@.len(),
            forall|j: int| 0 <= j < i ==> #[trigger] ids@[j] != id,
        decreases ids@.len() - i,
    {
        if ids[i] == id {
            return true;
        }
        i += 1;
    }
    false
}

/// Keeps the items that the predicate accepts, in their order.
pub(crate) fn retain<T, F: Fn(&T) -> bool>(list: &mut Vec<T>, keep: F, Ghost(wanted): Ghost<
    spec_fn(T) -> bool,
>)
    requires
        forall|x: T| #[trigger] call_requires(keep, (&x,)),
        forall|x: T, b: bool| #[trigger] call_ensures(keep, (&x,), b) ==> b == wanted(x),
    ensures
        final(list)@ == old(list)@.filter(wanted),
{
    let ghost before = list@;
    let ghost mut done: int = 0;
    let mut i: usize = 0;
    assert(before.take(0).filter(wanted) =~= Seq::empty()) by {
        reveal(Seq::filter);
    }
    assert(list@.skip(0) =~= before.skip(0));
    while i < list.len()
        invariant
            i <= list@.len(),
            0 <= done <= before.len(),
            list@.take(i as int) == before.take(done).filter(wanted),
            list@.skip(i as int) == before.skip(done),
            forall|x: T| #[trigger] call_requires(keep, (&x,)),
            forall|x: T, b: bool| #[trigger] call_ensures(keep, (&x,), b) ==> b == wanted(x),
        decreases list@.len() - i,
    {
        let kept = keep(&list[i]);
        let ghost old_list = list@;
        assert(before.skip(done).len() > 0);
        assert(before[done] == before.skip(done)[0]);
        assert(list@[i as int] == list@.skip(i as int)[0]);
        assert(before.take(done + 1).drop_last() =~= before.take(done));
        assert(before.take(done + 1).filter(wanted) == if wanted(before[done]) {
            before.take(done).filter(wanted).push(before[done])
        } else {
            before.take(done).filter(wanted)
        }) by {
            reveal(Seq::filter);
        }
        if kept {
            i += 1;
            assert(list@.take(i as int) =~= old_list.take(i - 1).push(before[done]));
            assert(list@.skip(i as int) =~= old_list.skip(i - 1).skip(1));
        } else {
            list.remove(i);
            assert(list@.take(i as int) =~= old_list.take(i as int));
            assert(list@.skip(i as int) =~= old_list.skip(i as int).skip(1));
        }
        assert(before.skip(done + 1) =~= before.skip(done).skip(1));
        proof {
            done = done + 1;
        }
    }
    assert(before.skip(done).len() == 0);
    assert(before.take(done) =~= before);
    assert(list@.take(i as int) =~= list@);
}

/// What a filtered list holds.
pub proof fn lemma_filter_contains<T>(list: Seq<T>, wanted: spec_fn(T) -> bool)
    ensures
        forall|i: int|
            0 <= i < list.filter(wanted).len() ==> wanted(#[trigger] list.filter(wanted)[i])
                && list.contains(list.filter(wanted)[i]),
        forall|i: int|
            0 <= i < list.len() && wanted(#[trigger] list[i]) ==> list.filter(wanted).contains(
                list[i],
            ),
    decreases list.len(),
{
    reveal(Seq::filter);
    if list.len() > 0 {
        let rest = list.drop_last();
        lemma_filter_contains(rest, wanted);
        let out = list.filter(wanted);
        let sub = rest.filter(wanted);
        assert forall|i: int| 0 <= i < out.len() implies wanted(#[trigger] out[i])
            && list.contains(out[i]) by {
            if i < sub.len() {
                assert(out[i] == sub[i]);
                let k = choose|k: int| 0 <= k < rest.len() && rest[k] == sub[i];
                assert(list[k] == out[i]);
            } else {
                assert(list[list.len() - 1] == out[i]);
            }
        }
        assert forall|i: int| 0 <= i < list.len() && wanted(#[trigger] list[i]) implies
            out.contains(list[i]) by {
            if i < rest.len() {
                assert(rest[i] == list[i]);
                assert(sub.contains(rest[i]));
                let k = choose|k: int| 0 <= k < sub.len() && sub[k] == rest[i];
                assert(out[k] == list[i]);
            } else {
                assert(out[out.len() - 1] == list[i]);
            }
        }
    }
}

/// A list of items that are all accepted stays as it is.
pub proof fn lemma_filter_all<T>(list: Seq<T>, wanted: spec_fn(T) -> bool)
    requires
        forall|i: int| 0 <= i < list.len() ==> wanted(#[trigger] list[i]),
    ensures
        list.filter(wanted) == list,
    decreases list.len(),
{
    reveal(Seq::filter);
    if list.len() > 0 {
        let rest = list.drop_last();
        assert forall|i: int| 0 <= i < rest.len() implies wanted(#[trigger] rest[i]) by {
            assert(wanted(list[i]));
        }
        lemma_filter_all(rest, wanted);
        assert(wanted(list[list.len() - 1]));
        assert(rest.push(list.last()) =~= list);
    } else {
        assert(list.filter(wanted) =~= list);
    }
}

/// Of a list of items that are all refused nothing stays.
pub proof fn lemma_filter_none<T>(list: Seq<T>, wanted: spec_fn(T) -> bool)
    requires
        forall|i: int| 0 <= i < list.len() ==> !wanted(#[trigger] list[i]),
    ensures
        list.filter(wanted) == Seq::<T>::empty(),
{
    lemma_filter_contains(list, wanted);
    let kept = list.filter(wanted);
    if kept.len() > 0 {
        assert(wanted(kept[0]) && list.contains(kept[0]));
    }
    assert(kept =~= Seq::<T>::empty());
}

/// Filtering a list by what its items are mapped to is filtering the mapped list.
pub proof fn lemma_filter_map<T, U>(list: Seq<T>, f: spec_fn(T) -> U, wanted: spec_fn(U) -> bool)
    ensures
        list.filter(|x: T| wanted(f(x))).map_values(f) == list.map_values(f).filter(wanted),
    decreases list.len(),
{
    reveal(Seq::filter);
    let picked = |x: T| wanted(f(x));
    if list.len() > 0 {
        let rest = list.drop_last();
        lemma_filter_map(rest, f, wanted);
        assert(list.map_values(f).drop_last() =~= rest.map_values(f));
        assert(rest.filter(picked).push(list.last()).map_values(f) =~= rest.filter(
            picked,
        ).map_values(f).push(f(list.last())));
    } else {
        assert(list.filter(picked).map_values(f) =~= list.map_values(f).filter(wanted));
    }
}

/// A list whose items have pairwise different keys keeps that when it is filtered.
pub proof fn lemma_filter_distinct<T>(
    list: Seq<T>,
    wanted: spec_fn(T) -> bool,
    key: spec_fn(T) -> u64,
)
    requires
        forall|i: int, j: int|
            0 <= i < j < list.len() ==> key(#[trigger] list[i]) != key(#[trigger] list[j]),
    ensures
        forall|i: int, j: int|
            0 <= i < j < list.filter(wanted).len() ==> key(#[trigger] list.filter(wanted)[i])
                != key(#[trigger] list.filter(wanted)[j]),
    decreases list.len(),
{
    reveal(Seq::filter);
    if list.len() > 0 {
        let rest = list.drop_last();
        lemma_filter_distinct(rest, wanted, key);
        lemma_filter_contains(rest, wanted);
        let out = list.filter(wanted);
        let sub = rest.filter(wanted);
        assert forall|i: int, j: int| 0 <= i < j < out.len() implies key(#[trigger] out[i])
            != key(#[trigger] out[j]) by {
            if j < sub.len() {
                assert(sub[i] == out[i] && sub[j] == out[j]);
            } else {
                assert(sub[i] == out[i]);
                let k = choose|k: int| 0 <= k < rest.len() && rest[k] == sub[i];
                assert(list[k] == rest[k]);
                assert(list[list.len() - 1] == out[j]);
            }
        }
    }
}

} // verus!
