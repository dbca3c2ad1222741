//! Hiding live tiles while a restore transition runs in their place.

use vstd::prelude::*;

use crate::layout::{Layout, LayoutView};
use crate::lists::contains;
use crate::ownership::{count, fits, lemma_count_at, lemma_count_witness, Key};
use crate::retile::{lemma_retiled, lemma_retiled_count, lemma_retiled_shaped, lemma_with_tiles};
use crate::spots::{lemma_spots, views, Spot};
use crate::tile::Tile;
use crate::types::{Host, WindowId};

verus! {

/// Which tiles are hidden from now on.
pub enum Concealment {
    /// The tiles of these windows are shown; the others stay as they are.
    Reveal { ids: Vec<WindowId> },
    /// The tile of this window is hidden; the others stay as they are.
    Hide { id: WindowId },
    /// The tiles of these windows are hidden, and no others.
    Only { ids: Vec<WindowId> },
}

impl Concealment {
    pub open spec fn conceals<H: Host>(self, tile: Tile<H>) -> bool {
        match self {
            Concealment::Reveal { ids } => tile.minimize_animation_hidden && !ids@.contains(
                tile.window.id,
            ),
            Concealment::Hide { id } => tile.minimize_animation_hidden || tile.window.id == id,
            Concealment::Only { ids } => ids@.contains(tile.window.id),
        }
    }

    fn is_concealed<H: Host>(&self, tile: &Tile<H>) -> (res: bool)
        ensures
            res == self.conceals(*tile),
    {
        match self {
            Concealment::Reveal { ids } => tile.minimize_animation_hidden && !contains(
                ids,
                tile.window.id,
            ),
            Concealment::Hide { id } => tile.minimize_animation_hidden || tile.window.id == *id,
            Concealment::Only { ids } => contains(ids, tile.window.id),
        }
    }
}

impl<H: Host> LayoutView<H> {
    /// The owned tiles with the new flags.
    pub open spec fn concealed_tiles(self, hidden: spec_fn(Tile<H>) -> bool) -> Seq<Tile<H>> {
        self.tiles().map_values(
            |tile: Tile<H>| Tile { minimize_animation_hidden: hidden(tile), ..tile },
        )
    }

    /// The layout in which exactly those of the owned tiles are hidden that the predicate picks.
    pub open spec fn with_concealment(self, hidden: spec_fn(Tile<H>) -> bool) -> Self {
        self.with_tiles(self.concealed_tiles(hidden), self.spots().len() as int)
    }
}

impl<H: Host> Layout<H> {
    pub(crate) fn conceal(&mut self, rule: &Concealment)
        ensures
            final(self)@ == old(self)@.with_concealment(|tile: Tile<H>| rule.conceals(tile)),
    {
        let spots = self.spots();
        let ghost l = self@;
        let ghost hidden = |tile: Tile<H>| rule.conceals(tile);
        let ghost tiles = l.concealed_tiles(hidden);
        proof {
            lemma_spots(l);
        }
        let mut i: usize = 0;
        while i < spots.len()
            invariant
                i <= spots@.len(),
                views(spots@) == l.spots(),
                hidden == (|tile: Tile<H>| rule.conceals(tile)),
                tiles == l.concealed_tiles(hidden),
                self@ == l.with_tiles(tiles, i as int),
            decreases spots@.len() - i,
        {
            proof {
                lemma_spots(l);
                assert(l.spots().map_values(|s: Spot<int>| l.tile(s)).len() == l.spots().len());
                lemma_with_tiles(l, tiles, i as int);
                assert(views(spots@)[i as int] == spots@[i as int]@);
                assert(l.valid(l.spots()[i as int]));
                assert(l.tiles()[i as int] == l.tile(l.spots()[i as int]));
            }
            let tile = self.tile_at_mut(&spots[i]);
            let hidden = rule.is_concealed(tile);
            tile.minimize_animation_hidden = hidden;
            i += 1;
        }
    }
}

/// Hiding and showing tiles keeps what the layout owns.
pub proof fn lemma_concealed<H: Host>(l: LayoutView<H>, hidden: spec_fn(Tile<H>) -> bool)
    ensures
        l.with_concealment(hidden).tiles() == l.concealed_tiles(hidden),
        l.with_concealment(hidden).only_tiles_differ(l),
        l.shaped() ==> l.with_concealment(hidden).shaped(),
        l.owns_once() ==> l.with_concealment(hidden).owns_once(),
        forall|key: Key<H>|
            !(key is Concealed) ==> #[trigger] count(l.with_concealment(hidden).tiles(), key)
                == count(l.tiles(), key),
{
    let tiles = l.concealed_tiles(hidden);
    let n = l.spots().len() as int;
    let after = l.with_concealment(hidden);
    lemma_spots(l);
    lemma_retiled(l, tiles);
    lemma_with_tiles(l, tiles, n);
    assert forall|key: Key<H>| !(key is Concealed) implies {
        &&& #[trigger] count(after.tiles(), key) == count(l.tiles(), key)
        &&& count(after.ordinary(), key) == count(l.ordinary(), key)
    } by {
        lemma_retiled_count(l, tiles, key);
    }
    if l.shaped() {
        lemma_retiled_shaped(l, tiles, n);
    }
    if l.owns_once() {
        assert(count(after.tiles(), Key::Minimized) >= 0);
        assert forall|id: WindowId| #[trigger] count(after.tiles(), Key::Id(id)) <= 1 by {
            assert(count(l.tiles(), Key::Id(id)) <= 1);
        }
    }
}

/// Hiding tiles only in workspaces, and only where a restore transition runs, keeps the layout
/// well-formed.
pub proof fn lemma_concealed_wf<H: Host>(
    l: LayoutView<H>,
    hidden: spec_fn(Tile<H>) -> bool,
    after: LayoutView<H>,
)
    requires
        l.shaped(),
        l.owns_once(),
        l.queue_wf(),
        after == (LayoutView {
            minimize_animations: after.minimize_animations,
            minimize_targets: after.minimize_targets,
            ..l.with_concealment(hidden)
        }),
        forall|i: int, j: int|
            0 <= i < j < after.minimize_animations.len() ==> (
            #[trigger] after.minimize_animations[i]).id != (
            #[trigger] after.minimize_animations[j]).id,
        forall|i: int|
            0 <= i < l.tiles().len() && hidden(#[trigger] l.tiles()[i]) ==> after.is_restoring(
                l.tiles()[i].window.id,
            ),
        forall|spot: Spot<int>| #[trigger]
            l.valid(spot) && !(spot is Held) ==> !hidden(l.tile(spot)),
    ensures
        after.wf(),
{
    let concealed = l.with_concealment(hidden);
    lemma_concealed(l, hidden);
    assert forall|i: int| 0 <= i < after.minimized_windows.len() implies (
    #[trigger] after.minimized_windows[i]).wf() by {
        let spot = Spot::Minimized { index: i };
        assert(l.valid(spot));
        lemma_concealed_tile(l, hidden, spot);
        assert(l.minimized_windows[i].wf());
        assert(after.minimized_windows[i] == l.minimized_windows[i].with_tile(
            concealed.tile(spot),
        ));
    }
    if after.interactive_move is Some {
        assert(concealed.valid(Spot::Moving));
        lemma_concealed_tile(l, hidden, Spot::Moving);
    }
    assert(after.tiles() == concealed.tiles() && after.ordinary() == concealed.ordinary());
    assert forall|id: WindowId| #[trigger]
        count(after.tiles(), Key::Concealed(id)) > 0 implies after.is_restoring(id) by {
        let i = lemma_count_witness(l.concealed_tiles(hidden), Key::Concealed(id));
        assert(fits(Key::Concealed(id), l.concealed_tiles(hidden)[i]));
        assert(hidden(l.tiles()[i]) && l.tiles()[i].window.id == id);
    }
}

/// A hidden tile is being restored.
pub proof fn lemma_hidden_restores<H: Host>(l: LayoutView<H>, i: int) -> (k: int)
    requires
        l.wf(),
        0 <= i < l.tiles().len(),
        l.tiles()[i].minimize_animation_hidden,
    ensures
        0 <= k < l.minimize_animations.len(),
        l.minimize_animations[k].id == l.tiles()[i].window.id,
        l.minimize_animations[k].restoring,
{
    let id = l.tiles()[i].window.id;
    lemma_count_at(l.tiles(), i, Key::Concealed(id));
    assert(count(l.tiles(), Key::Concealed(id)) > 0);
    assert(l.is_restoring(id));
    choose|k: int|
        0 <= k < l.minimize_animations.len() && (#[trigger] l.minimize_animations[k]).id == id
            && l.minimize_animations[k].restoring
}

/// The tile at a spot after hiding and showing.
pub proof fn lemma_concealed_tile<H: Host>(
    l: LayoutView<H>,
    hidden: spec_fn(Tile<H>) -> bool,
    spot: Spot<int>,
)
    requires
        l.valid(spot) || l.with_concealment(hidden).valid(spot),
    ensures
        l.valid(spot),
        l.with_concealment(hidden).valid(spot),
        l.with_concealment(hidden).tile(spot) == (Tile {
            minimize_animation_hidden: hidden(l.tile(spot)),
            ..l.tile(spot)
        }),
{
    let tiles = l.concealed_tiles(hidden);
    let n = l.spots().len() as int;
    lemma_spots(l);
    assert(l.spots().map_values(|s: Spot<int>| l.tile(s)).len() == n);
    lemma_with_tiles(l, tiles, n);
    assert(l.spots().contains(spot));
    let i = choose|i: int| 0 <= i < n && l.spots()[i] == spot;
    assert(l.tiles()[i] == l.tile(l.spots()[i]));
}

} // verus!
