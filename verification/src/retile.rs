//! Changing tiles where they are.

use vstd::prelude::*;

use crate::layout::{lemma_still_wf, minimized_tiles, Layout, LayoutView, Slot};
use crate::monitor::{lemma_monitor_workspace, MonitorView};
use crate::ownership::{count, fits, lemma_count_pointwise, Key};
use crate::placement::{lemma_monitor_changed, lemma_orphan_changed};
use crate::spots::{lemma_slots, lemma_spots, Spot};
use crate::tile::Tile;
use crate::types::Host;
use crate::workspace::{lemma_with_tile_wf, Place, WorkspaceView};

verus! {

impl<H: Host> Layout<H> {
    pub fn tile_at(&self, spot: &Spot<usize>) -> (res: &Tile<H>)
        requires
            self@.valid(spot@),
        ensures
            *res == self@.tile(spot@),
    {
        match spot {
            Spot::Moving => &self.interactive_move.as_ref().unwrap().removed.tile,
            Spot::Held { slot, place } => self.workspace_at(slot).tile_at(place),
            Spot::Minimized { index } => &self.minimized_windows[*index].removed.tile,
        }
    }

    pub(crate) fn tile_at_mut(&mut self, spot: &Spot<usize>) -> (res: &mut Tile<H>)
        requires
            old(self)@.valid(spot@),
        ensures
            *res == old(self)@.tile(spot@),
            final(self)@ =~~= old(self)@.with_tile(spot@, *final(res)),
    {
        match spot {
            Spot::Moving => {
                let res = &mut self.interactive_move.as_mut().unwrap().removed.tile;
                res
            },
            Spot::Held { slot, place } => match slot {
                Slot::OnMonitor { monitor, workspace } => {
                    self.monitors[*monitor].workspaces[*workspace].tile_mut(place)
                },
                Slot::Orphan { workspace } => self.orphans[*workspace].tile_mut(place),
            },
            Spot::Minimized { index } => {
                let res = &mut self.minimized_windows[*index].removed.tile;
                res
            },
        }
    }
}

impl<H: Host> WorkspaceView<H> {
    /// The same columns and floating windows, perhaps with other tiles in them.
    pub open spec fn same_places(self, other: Self) -> bool {
        &&& self.columns.len() == other.columns.len()
        &&& self.floating.len() == other.floating.len()
        &&& forall|c: int|
            0 <= c < self.columns.len() ==> (#[trigger] self.columns[c]).tiles.len()
                == other.columns[c].tiles.len()
    }
}

proof fn lemma_same_tiled_places<H: Host>(a: WorkspaceView<H>, b: WorkspaceView<H>, n: int)
    requires
        a.same_places(b),
        0 <= n <= a.columns.len(),
    ensures
        a.tiled_places(n) == b.tiled_places(n),
    decreases n,
{
    if n > 0 {
        lemma_same_tiled_places(a, b, n - 1);
        assert(a.columns[n - 1].tiles.len() == b.columns[n - 1].tiles.len());
        assert(a.tiled_places(n) =~= b.tiled_places(n));
    }
}

proof fn lemma_same_places<H: Host>(a: WorkspaceView<H>, b: WorkspaceView<H>)
    requires
        a.same_places(b),
    ensures
        a.places() == b.places(),
        forall|p: Place<int>| a.valid(p) == b.valid(p),
{
    lemma_same_tiled_places(a, b, a.columns.len() as int);
    assert(a.places() =~= b.places());
}

impl<H: Host> LayoutView<H> {
    /// What owns no tile is the same.
    pub open spec fn only_tiles_differ(self, other: Self) -> bool {
        &&& self == LayoutView {
            monitors: self.monitors,
            orphans: self.orphans,
            interactive_move: self.interactive_move,
            minimized_windows: self.minimized_windows,
            ..other
        }
        &&& self.minimized_windows.len() == other.minimized_windows.len()
        &&& forall|i: int|
            0 <= i < self.minimized_windows.len() ==> #[trigger] self.minimized_windows[i]
                == other.minimized_windows[i].with_tile(self.minimized_windows[i].removed.tile)
        &&& self.monitors.len() == other.monitors.len()
        &&& forall|m: int|
            0 <= m < self.monitors.len() ==> #[trigger] self.monitors[m] == (MonitorView {
                workspaces: self.monitors[m].workspaces,
                ..other.monitors[m]
            })
    }

    /// The same monitors and workspaces, perhaps with other tiles in them.
    pub open spec fn same_spots(self, other: Self) -> bool {
        &&& self.interactive_move is Some == other.interactive_move is Some
        &&& self.minimized_windows.len() == other.minimized_windows.len()
        &&& self.monitors.len() == other.monitors.len()
        &&& self.orphans.len() == other.orphans.len()
        &&& forall|m: int|
            0 <= m < self.monitors.len() ==> (#[trigger] self.monitors[m]).workspaces.len()
                == other.monitors[m].workspaces.len()
        &&& forall|slot: Slot<int>| #[trigger]
            self.has_slot(slot) ==> self.workspace(slot).same_places(other.workspace(slot))
    }
}

proof fn lemma_same_monitor_slots<H: Host>(a: LayoutView<H>, b: LayoutView<H>, n: int)
    requires
        a.same_spots(b),
        0 <= n <= a.monitors.len(),
    ensures
        a.monitor_slots(n) == b.monitor_slots(n),
    decreases n,
{
    if n > 0 {
        lemma_same_monitor_slots(a, b, n - 1);
        assert(a.monitors[n - 1].workspaces.len() == b.monitors[n - 1].workspaces.len());
        assert(a.monitor_slots(n) =~= b.monitor_slots(n));
    }
}

proof fn lemma_same_held_spots<H: Host>(a: LayoutView<H>, b: LayoutView<H>, n: int)
    requires
        a.same_spots(b),
        a.slots() == b.slots(),
        0 <= n <= a.slots().len(),
    ensures
        a.held_spots(n) == b.held_spots(n),
    decreases n,
{
    if n > 0 {
        lemma_same_held_spots(a, b, n - 1);
        lemma_slots(a);
        let slot = a.slots()[n - 1];
        assert(a.has_slot(slot));
        lemma_same_places(a.workspace(slot), b.workspace(slot));
        assert(a.slot_spots(slot) =~= b.slot_spots(slot));
    }
}

/// The same monitors and workspaces have the same spots.
pub proof fn lemma_same_spots<H: Host>(a: LayoutView<H>, b: LayoutView<H>)
    requires
        a.same_spots(b),
    ensures
        a.spots() == b.spots(),
        a.slots() == b.slots(),
        forall|s: Spot<int>| a.valid(s) == b.valid(s),
{
    lemma_same_monitor_slots(a, b, a.monitors.len() as int);
    assert(a.slots() =~= b.slots());
    lemma_same_held_spots(a, b, a.slots().len() as int);
    assert(a.spots() =~= b.spots());
    assert forall|s: Spot<int>| a.valid(s) == b.valid(s) by {
        if let Spot::Held { slot, place } = s {
            assert(a.has_slot(slot) == b.has_slot(slot)) by {
                if let Slot::OnMonitor { monitor, workspace } = slot {
                    if 0 <= monitor < a.monitors.len() {
                        assert(a.monitors[monitor].workspaces.len()
                            == b.monitors[monitor].workspaces.len());
                    }
                }
            }
            if a.has_slot(slot) {
                lemma_same_places(a.workspace(slot), b.workspace(slot));
            }
        }
    }
}

/// A new tile at one spot leaves the other spots alone.
pub proof fn lemma_with_tile<H: Host>(l: LayoutView<H>, spot: Spot<int>, tile: Tile<H>)
    requires
        l.valid(spot),
    ensures
        l.with_tile(spot, tile).spots() == l.spots(),
        forall|s: Spot<int>| l.with_tile(spot, tile).valid(s) == l.valid(s),
        forall|s: Spot<int>|
            l.valid(s) ==> #[trigger] l.with_tile(spot, tile).tile(s) == if s == spot {
                tile
            } else {
                l.tile(s)
            },
        l.with_tile(spot, tile).minimized_windows.len() == l.minimized_windows.len(),
        l.with_tile(spot, tile).only_tiles_differ(l),
{
    let after = l.with_tile(spot, tile);
    assert forall|slot: Slot<int>| #[trigger] l.has_slot(slot) implies l.workspace(
        slot,
    ).same_places(after.workspace(slot)) by {
        let a = l.workspace(slot);
        let b = after.workspace(slot);
        assert forall|c: int| 0 <= c < a.columns.len() implies (
        #[trigger] a.columns[c]).tiles.len() == b.columns[c].tiles.len() by {}
    }
    lemma_same_spots(l, after);
}

/// A new tile for the same window keeps the shape of the layout and its focus.
pub proof fn lemma_with_tile_shaped<H: Host>(l: LayoutView<H>, spot: Spot<int>, tile: Tile<H>)
    requires
        l.shaped(),
        l.valid(spot),
        tile.window.id == l.tile(spot).window.id,
        tile.window.pending_sizing_mode == l.tile(spot).window.pending_sizing_mode,
    ensures
        l.with_tile(spot, tile).shaped(),
{
    let after = l.with_tile(spot, tile);
    match spot {
        Spot::Held { slot, place } => {
            let ws = l.workspace(slot);
            match slot {
                Slot::OnMonitor { monitor, workspace } => {
                    let mon = l.monitors[monitor];
                    assert(mon.wf());
                    assert(ws.wf());
                    lemma_with_tile_wf(ws, place, tile);
                    lemma_monitor_workspace(
                        mon,
                        workspace,
                        ws.with_tile(place, tile),
                        Key::Minimized,
                    );
                    lemma_monitor_changed(
                        l,
                        after,
                        monitor,
                        mon.with_workspace(workspace, ws.with_tile(place, tile)),
                        Key::Minimized,
                    );
                },
                Slot::Orphan { workspace } => {
                    assert(ws.wf());
                    lemma_with_tile_wf(ws, place, tile);
                    lemma_orphan_changed(
                        l,
                        after,
                        workspace,
                        ws.with_tile(place, tile),
                        Key::Minimized,
                    );
                },
            }
        },
        _ => {
            assert(after.monitors == l.monitors && after.orphans == l.orphans);
        },
    }
}

/// New tiles in the first `n` spots, the old ones in the others.
pub proof fn lemma_with_tiles<H: Host>(l: LayoutView<H>, tiles: Seq<Tile<H>>, n: int)
    requires
        0 <= n <= l.spots().len(),
        tiles.len() >= n,
    ensures
        l.with_tiles(tiles, n).spots() == l.spots(),
        forall|s: Spot<int>| l.with_tiles(tiles, n).valid(s) == l.valid(s),
        forall|i: int|
            0 <= i < l.spots().len() ==> l.with_tiles(tiles, n).tile(#[trigger] l.spots()[i])
                == if i < n {
                tiles[i]
            } else {
                l.tile(l.spots()[i])
            },
        l.with_tiles(tiles, n).minimized_windows.len() == l.minimized_windows.len(),
        l.with_tiles(tiles, n).only_tiles_differ(l),
    decreases n,
{
    lemma_spots(l);
    if n > 0 {
        lemma_with_tiles(l, tiles, n - 1);
        let before = l.with_tiles(tiles, n - 1);
        let spot = l.spots()[n - 1];
        assert(l.valid(spot));
        lemma_with_tile(before, spot, tiles[n - 1]);
        assert forall|i: int| 0 <= i < l.spots().len() implies l.with_tiles(tiles, n).tile(
            #[trigger] l.spots()[i],
        ) == if i < n {
            tiles[i]
        } else {
            l.tile(l.spots()[i])
        } by {
            assert(l.valid(l.spots()[i]));
            assert(i != n - 1 ==> l.spots()[i] != l.spots()[n - 1]);
        }
    }
}

/// With new tiles in all its spots, these are the tiles that the layout owns.
pub proof fn lemma_retiled<H: Host>(l: LayoutView<H>, tiles: Seq<Tile<H>>)
    requires
        tiles.len() == l.tiles().len(),
    ensures
        l.spots().len() == l.tiles().len(),
        l.with_tiles(tiles, l.spots().len() as int).tiles() == tiles,
        l.with_tiles(tiles, l.spots().len() as int).ordinary() == tiles.take(
            l.ordinary().len() as int,
        ),
{
    let n = l.spots().len() as int;
    let after = l.with_tiles(tiles, n);
    lemma_spots(l);
    assert(l.spots().map_values(|s: Spot<int>| l.tile(s)).len() == n);
    lemma_with_tiles(l, tiles, n);
    lemma_spots(after);
    assert(after.spots().map_values(|s: Spot<int>| after.tile(s)) =~= tiles) by {
        assert forall|i: int| 0 <= i < n implies after.tile(#[trigger] l.spots()[i])
            == tiles[i] by {}
    }
    assert(minimized_tiles(after.minimized_windows).len() == minimized_tiles(
        l.minimized_windows,
    ).len());
    assert(after.ordinary() =~= after.tiles().take(after.ordinary().len() as int));
}

/// New tiles that fit the same key change no count.
pub proof fn lemma_retiled_count<H: Host>(l: LayoutView<H>, tiles: Seq<Tile<H>>, key: Key<H>)
    requires
        tiles.len() == l.tiles().len(),
        forall|i: int|
            0 <= i < tiles.len() ==> fits(key, #[trigger] tiles[i]) == fits(key, l.tiles()[i]),
    ensures
        count(l.with_tiles(tiles, l.spots().len() as int).tiles(), key) == count(l.tiles(), key),
        count(l.with_tiles(tiles, l.spots().len() as int).ordinary(), key) == count(
            l.ordinary(),
            key,
        ),
{
    lemma_retiled(l, tiles);
    lemma_count_pointwise(l.tiles(), tiles, key);
    let k = l.ordinary().len() as int;
    assert(l.ordinary() =~= l.tiles().take(k));
    lemma_count_pointwise(l.ordinary(), tiles.take(k), key);
}

/// New tiles for the same windows keep the shape of the layout.
pub proof fn lemma_retiled_shaped<H: Host>(l: LayoutView<H>, tiles: Seq<Tile<H>>, n: int)
    requires
        l.shaped(),
        tiles.len() == l.tiles().len(),
        0 <= n <= tiles.len(),
        forall|i: int|
            0 <= i < tiles.len() ==> (#[trigger] tiles[i]).window.id == l.tiles()[i].window.id
                && tiles[i].window.pending_sizing_mode
                == l.tiles()[i].window.pending_sizing_mode,
    ensures
        l.with_tiles(tiles, n).shaped(),
    decreases n,
{
    lemma_retiled(l, tiles);
    if n > 0 {
        lemma_retiled_shaped(l, tiles, n - 1);
        lemma_with_tiles(l, tiles, n - 1);
        lemma_spots(l);
        let spot = l.spots()[n - 1];
        assert(l.valid(spot));
        assert(l.tiles()[n - 1] == l.tile(spot));
        lemma_with_tile_shaped(l.with_tiles(tiles, n - 1), spot, tiles[n - 1]);
    }
}

/// A new tile for the same window keeps the layout well-formed.
pub proof fn lemma_replaced<H: Host>(l: LayoutView<H>, spot: Spot<int>, tile: Tile<H>)
    requires
        l.wf(),
        l.valid(spot),
        tile.window.keeps_place(l.tile(spot).window),
        tile.minimize_animation_hidden == l.tile(spot).minimize_animation_hidden,
    ensures
        l.with_tile(spot, tile).wf(),
{
    let after = l.with_tile(spot, tile);
    lemma_with_tile(l, spot, tile);
    lemma_with_tile_shaped(l, spot, tile);
    lemma_spots(l);
    lemma_spots(after);
    assert forall|key: Key<H>| fits(key, tile) == fits(key, l.tile(spot)) implies {
        &&& #[trigger] count(after.tiles(), key) == count(l.tiles(), key)
        &&& count(after.ordinary(), key) == count(l.ordinary(), key)
    } by {
        assert forall|i: int| 0 <= i < l.tiles().len() implies fits(key, #[trigger] l.tiles()[i])
            == fits(key, after.tiles()[i]) by {
            let s = l.spots()[i];
            assert(l.valid(s));
            assert(l.tiles()[i] == l.tile(s));
            assert(after.tiles()[i] == after.tile(s));
        }
        lemma_count_pointwise(l.tiles(), after.tiles(), key);
        let k = l.ordinary().len() as int;
        assert(minimized_tiles(after.minimized_windows).len() == minimized_tiles(
            l.minimized_windows,
        ).len());
        assert(l.ordinary() =~= l.tiles().take(k));
        assert(after.ordinary() =~= after.tiles().take(k));
        assert forall|i: int| 0 <= i < k implies fits(key, #[trigger] l.ordinary()[i]) == fits(
            key,
            after.ordinary()[i],
        ) by {
            assert(l.ordinary()[i] == l.tiles()[i]);
        }
        lemma_count_pointwise(l.ordinary(), after.ordinary(), key);
    }
    assert(count(after.tiles(), Key::Minimized) >= 0);
    assert forall|i: int| 0 <= i < after.minimized_windows.len() implies (
    #[trigger] after.minimized_windows[i]).wf() by {
        assert(l.minimized_windows[i].wf());
    }
    lemma_still_wf(l, after);
}

} // verus!
