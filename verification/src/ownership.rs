//! Counting windows in nested lists of tiles.
//!
//! Every statement about ownership (a window is held exactly once, none is lost) is a statement
//! about how many tiles of the layout match a key.

use vstd::prelude::*;

use crate::tile::Tile;
use crate::types::{Host, SurfaceId, WindowId};

verus! {

/// What is looked for when windows are counted.
pub enum Key<H: Host> {
    /// Any window with this identity.
    Id(WindowId),
    /// This very window: identity, surface and live object.
    Object(WindowId, SurfaceId, H::Handle),
    /// Any window that is marked as minimized.
    Minimized,
    /// The window with this identity, while a restore transition runs in place of its tile.
    Concealed(WindowId),
}

pub open spec fn fits<H: Host>(key: Key<H>, tile: Tile<H>) -> bool {
    match key {
        Key::Id(id) => tile.window.id == id,
        Key::Object(id, surface, handle) => {
            &&& tile.window.id == id
            &&& tile.window.surface == surface
            &&& tile.window.handle == handle
        },
        Key::Minimized => tile.window.minimized,
        Key::Concealed(id) => tile.window.id == id && tile.minimize_animation_hidden,
    }
}

/// Number of tiles that match.
pub open spec fn count<H: Host>(tiles: Seq<Tile<H>>, key: Key<H>) -> nat
    decreases tiles.len(),
{
    if tiles.len() == 0 {
        0
    } else {
        count(tiles.drop_last(), key) + if fits(key, tiles.last()) {
            1nat
        } else {
            0nat
        }
    }
}

/// One for a matching tile, otherwise zero.
pub open spec fn one<H: Host>(tile: Tile<H>, key: Key<H>) -> nat {
    if fits(key, tile) {
        1
    } else {
        0
    }
}

pub proof fn lemma_count_add<H: Host>(a: Seq<Tile<H>>, b: Seq<Tile<H>>, key: Key<H>)
    ensures
        count(a + b, key) == count(a, key) + count(b, key),
    decreases b.len(),
{
    if b.len() == 0 {
        assert(a + b =~= a);
    } else {
        assert((a + b).drop_last() =~= a + b.drop_last());
        lemma_count_add(a, b.drop_last(), key);
    }
}

pub proof fn lemma_count_one<H: Host>(t: Tile<H>, key: Key<H>)
    ensures
        count(seq![t], key) == one(t, key),
{
    assert(seq![t].drop_last() =~= Seq::<Tile<H>>::empty());
    assert(count(Seq::<Tile<H>>::empty(), key) == 0);
}

pub proof fn lemma_count_split<H: Host>(s: Seq<Tile<H>>, i: int, key: Key<H>)
    requires
        0 <= i < s.len(),
    ensures
        count(s, key) == count(s.take(i), key) + one(s[i], key) + count(s.skip(i + 1), key),
{
    assert(s =~= s.take(i) + seq![s[i]] + s.skip(i + 1));
    lemma_count_add(s.take(i) + seq![s[i]], s.skip(i + 1), key);
    lemma_count_add(s.take(i), seq![s[i]], key);
    lemma_count_one(s[i], key);
}

pub proof fn lemma_count_remove<H: Host>(s: Seq<Tile<H>>, i: int, key: Key<H>)
    requires
        0 <= i < s.len(),
    ensures
        count(s, key) == count(s.remove(i), key) + one(s[i], key),
{
    lemma_count_split(s, i, key);
    assert(s.remove(i) =~= s.take(i) + s.skip(i + 1));
    lemma_count_add(s.take(i), s.skip(i + 1), key);
}

pub proof fn lemma_count_insert<H: Host>(s: Seq<Tile<H>>, i: int, t: Tile<H>, key: Key<H>)
    requires
        0 <= i <= s.len(),
    ensures
        count(s.insert(i, t), key) == count(s, key) + one(t, key),
{
    lemma_count_remove(s.insert(i, t), i, key);
    assert(s.insert(i, t).remove(i) =~= s);
}

/// Lists whose tiles match the same keys pairwise have equal counts.
pub proof fn lemma_count_pointwise<H: Host>(a: Seq<Tile<H>>, b: Seq<Tile<H>>, key: Key<H>)
    requires
        a.len() == b.len(),
        forall|i: int| 0 <= i < a.len() ==> fits(key, #[trigger] a[i]) == fits(key, b[i]),
    ensures
        count(a, key) == count(b, key),
    decreases a.len(),
{
    if a.len() > 0 {
        assert(fits(key, a[a.len() - 1]) == fits(key, b[a.len() - 1]));
        assert forall|i: int| 0 <= i < a.drop_last().len() implies fits(
            key,
            #[trigger] a.drop_last()[i],
        ) == fits(key, b.drop_last()[i]) by {
            assert(fits(key, a[i]) == fits(key, b[i]));
        }
        lemma_count_pointwise(a.drop_last(), b.drop_last(), key);
    }
}

pub proof fn lemma_count_at<H: Host>(s: Seq<Tile<H>>, i: int, key: Key<H>)
    requires
        0 <= i < s.len(),
        fits(key, s[i]),
    ensures
        count(s, key) >= 1,
{
    lemma_count_split(s, i, key);
}

pub proof fn lemma_count_witness<H: Host>(s: Seq<Tile<H>>, key: Key<H>) -> (i: int)
    requires
        count(s, key) >= 1,
    ensures
        0 <= i < s.len(),
        fits(key, s[i]),
    decreases s.len(),
{
    if fits(key, s.last()) {
        s.len() - 1
    } else {
        let i = lemma_count_witness(s.drop_last(), key);
        assert(s.drop_last()[i] == s[i]);
        i
    }
}

/// Two matching tiles in a list where at most one matches are the same tile.
pub proof fn lemma_count_unique<H: Host>(s: Seq<Tile<H>>, i: int, j: int, key: Key<H>)
    requires
        0 <= i < s.len(),
        0 <= j < s.len(),
        fits(key, s[i]),
        fits(key, s[j]),
        count(s, key) <= 1,
    ensures
        i == j,
{
    lemma_count_split(s, i, key);
    if i < j {
        assert(s.skip(i + 1)[j - i - 1] == s[j]);
        lemma_count_at(s.skip(i + 1), j - i - 1, key);
    } else if j < i {
        assert(s.take(i)[j] == s[j]);
        lemma_count_at(s.take(i), j, key);
    }
}

/// A list of lists, taken apart at one place.
pub proof fn lemma_flatten_split<A>(s: Seq<Seq<A>>, i: int)
    requires
        0 <= i < s.len(),
    ensures
        s.flatten() == s.take(i).flatten() + s[i] + s.skip(i + 1).flatten(),
{
    assert(s =~= s.take(i) + seq![s[i]] + s.skip(i + 1));
    vstd::seq_lib::lemma_flatten_concat(s.take(i) + seq![s[i]], s.skip(i + 1));
    vstd::seq_lib::lemma_flatten_concat(s.take(i), seq![s[i]]);
    seq![s[i]].lemma_flatten_one_element();
}

pub proof fn lemma_flatten_update<A>(s: Seq<Seq<A>>, i: int, x: Seq<A>)
    requires
        0 <= i < s.len(),
    ensures
        s.update(i, x).flatten() == s.take(i).flatten() + x + s.skip(i + 1).flatten(),
{
    lemma_flatten_split(s.update(i, x), i);
    assert(s.update(i, x).take(i) =~= s.take(i));
    assert(s.update(i, x).skip(i + 1) =~= s.skip(i + 1));
}

pub proof fn lemma_flatten_remove<A>(s: Seq<Seq<A>>, i: int)
    requires
        0 <= i < s.len(),
    ensures
        s.remove(i).flatten() == s.take(i).flatten() + s.skip(i + 1).flatten(),
{
    assert(s.remove(i) =~= s.take(i) + s.skip(i + 1));
    vstd::seq_lib::lemma_flatten_concat(s.take(i), s.skip(i + 1));
}

pub proof fn lemma_flatten_insert<A>(s: Seq<Seq<A>>, i: int, x: Seq<A>)
    requires
        0 <= i <= s.len(),
    ensures
        s.insert(i, x).flatten() == s.take(i).flatten() + x + s.skip(i).flatten(),
        s.flatten() == s.take(i).flatten() + s.skip(i).flatten(),
{
    lemma_flatten_split(s.insert(i, x), i);
    assert(s.insert(i, x).take(i) =~= s.take(i));
    assert(s.insert(i, x).skip(i + 1) =~= s.skip(i));
    assert(s =~= s.take(i) + s.skip(i));
    vstd::seq_lib::lemma_flatten_concat(s.take(i), s.skip(i));
}

/// Number of matching tiles in a list of lists.
pub open spec fn count_flat<H: Host>(s: Seq<Seq<Tile<H>>>, key: Key<H>) -> nat {
    count(s.flatten(), key)
}

pub proof fn lemma_count_flat_update<H: Host>(
    s: Seq<Seq<Tile<H>>>,
    i: int,
    x: Seq<Tile<H>>,
    key: Key<H>,
)
    requires
        0 <= i < s.len(),
    ensures
        count_flat(s.update(i, x), key) + count(s[i], key) == count_flat(s, key) + count(x, key),
        count(s[i], key) <= count_flat(s, key),
{
    let a = s.take(i).flatten();
    let b = s.skip(i + 1).flatten();
    lemma_flatten_split(s, i);
    lemma_flatten_update(s, i, x);
    lemma_count_add(a + s[i], b, key);
    lemma_count_add(a, s[i], key);
    lemma_count_add(a + x, b, key);
    lemma_count_add(a, x, key);
}

pub proof fn lemma_count_flat_remove<H: Host>(s: Seq<Seq<Tile<H>>>, i: int, key: Key<H>)
    requires
        0 <= i < s.len(),
    ensures
        count_flat(s.remove(i), key) + count(s[i], key) == count_flat(s, key),
{
    let a = s.take(i).flatten();
    let b = s.skip(i + 1).flatten();
    lemma_flatten_split(s, i);
    lemma_flatten_remove(s, i);
    lemma_count_add(a + s[i], b, key);
    lemma_count_add(a, s[i], key);
    lemma_count_add(a, b, key);
}

pub proof fn lemma_count_flat_insert<H: Host>(
    s: Seq<Seq<Tile<H>>>,
    i: int,
    x: Seq<Tile<H>>,
    key: Key<H>,
)
    requires
        0 <= i <= s.len(),
    ensures
        count_flat(s.insert(i, x), key) == count_flat(s, key) + count(x, key),
{
    let a = s.take(i).flatten();
    let b = s.skip(i).flatten();
    lemma_flatten_insert(s, i, x);
    lemma_count_add(a + x, b, key);
    lemma_count_add(a, x, key);
    lemma_count_add(a, b, key);
}

/// A match in one of the lists is a match in the list of lists.
pub proof fn lemma_count_flat_at<H: Host>(s: Seq<Seq<Tile<H>>>, i: int, key: Key<H>)
    requires
        0 <= i < s.len(),
    ensures
        count(s[i], key) <= count_flat(s, key),
{
    lemma_count_flat_update(s, i, s[i], key);
}

pub proof fn lemma_count_flat_witness<H: Host>(s: Seq<Seq<Tile<H>>>, key: Key<H>) -> (i: int)
    requires
        count_flat(s, key) >= 1,
    ensures
        0 <= i < s.len(),
        count(s[i], key) >= 1,
    decreases s.len(),
{
    if s.len() == 0 {
        assert(s.flatten() =~= Seq::<Tile<H>>::empty());
        0
    } else {
        let last = s.len() - 1;
        lemma_count_flat_remove(s, last, key);
        if count(s[last], key) >= 1 {
            last
        } else {
            assert(s.remove(last) =~= s.drop_last());
            let i = lemma_count_flat_witness(s.drop_last(), key);
            assert(s.drop_last()[i] == s[i]);
            i
        }
    }
}

/// Two lists with a match, where at most one tile matches in all, are the same list.
pub proof fn lemma_count_flat_unique<H: Host>(s: Seq<Seq<Tile<H>>>, i: int, j: int, key: Key<H>)
    requires
        0 <= i < s.len(),
        0 <= j < s.len(),
        count(s[i], key) >= 1,
        count(s[j], key) >= 1,
        count_flat(s, key) <= 1,
    ensures
        i == j,
{
    lemma_count_flat_remove(s, i, key);
    if i < j {
        assert(s.remove(i)[j - 1] == s[j]);
        lemma_count_flat_at(s.remove(i), j - 1, key);
    } else if j < i {
        assert(s.remove(i)[j] == s[j]);
        lemma_count_flat_at(s.remove(i), j, key);
    }
}

} // verus!
