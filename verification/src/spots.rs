//! Going through every tile that the layout owns, in a fixed order.

use vstd::prelude::*;

use crate::layout::{minimized_tiles, monitor_lists, InteractiveMove, Layout, LayoutView, Slot};
use crate::monitor::workspace_lists;
use crate::tile::{RemovedTile, Tile};
use crate::types::Host;
use crate::workspace::{column_lists, Place, Workspace, WorkspaceView};

verus! {

/// Where the layout owns a tile.
#[derive(Copy)]
pub enum Spot<I> {
    Moving,
    Held { slot: Slot<I>, place: Place<I> },
    Minimized { index: I },
}

impl<I: Copy> Clone for Spot<I> {
    fn clone(&self) -> (res: Self)
        ensures
            res == *self,
    {
        *self
    }
}

impl View for Spot<usize> {
    type V = Spot<int>;

    open spec fn view(&self) -> Spot<int> {
        match self {
            Spot::Moving => Spot::Moving,
            Spot::Held { slot, place } => Spot::Held { slot: slot@, place: place@ },
            Spot::Minimized { index } => Spot::Minimized { index: *index as int },
        }
    }
}

impl<H: Host> WorkspaceView<H> {
    /// The places of the first `n` columns, column by column.
    pub open spec fn tiled_places(self, n: int) -> Seq<Place<int>>
        decreases n,
    {
        if n <= 0 {
            Seq::empty()
        } else {
            self.tiled_places(n - 1) + Seq::new(
                self.columns[n - 1].tiles.len(),
                |row: int| Place::Tiled { column: n - 1, row },
            )
        }
    }

    /// All places: the columns from left to right, then the floating windows from the top.
    pub open spec fn places(self) -> Seq<Place<int>> {
        self.tiled_places(self.columns.len() as int) + Seq::new(
            self.floating.len(),
            |index: int| Place::Floating { index },
        )
    }
}

impl<H: Host> LayoutView<H> {
    /// The workspaces of the first `n` monitors, monitor by monitor.
    pub open spec fn monitor_slots(self, n: int) -> Seq<Slot<int>>
        decreases n,
    {
        if n <= 0 {
            Seq::empty()
        } else {
            self.monitor_slots(n - 1) + Seq::new(
                self.monitors[n - 1].workspaces.len(),
                |workspace: int| Slot::OnMonitor { monitor: n - 1, workspace },
            )
        }
    }

    /// All workspaces.
    pub open spec fn slots(self) -> Seq<Slot<int>> {
        self.monitor_slots(self.monitors.len() as int) + Seq::new(
            self.orphans.len(),
            |workspace: int| Slot::Orphan { workspace },
        )
    }

    /// The spots of one workspace.
    pub open spec fn slot_spots(self, slot: Slot<int>) -> Seq<Spot<int>> {
        self.workspace(slot).places().map_values(|place: Place<int>| Spot::Held { slot, place })
    }

    /// The spots of the first `n` workspaces, workspace by workspace.
    pub open spec fn held_spots(self, n: int) -> Seq<Spot<int>>
        decreases n,
    {
        if n <= 0 {
            Seq::empty()
        } else {
            self.held_spots(n - 1) + self.slot_spots(self.slots()[n - 1])
        }
    }

    pub open spec fn moving_spots(self) -> Seq<Spot<int>> {
        if self.interactive_move is Some {
            seq![Spot::Moving]
        } else {
            Seq::empty()
        }
    }

    /// All spots: the tile that the pointer holds, the workspaces, then the minimized windows.
    pub open spec fn spots(self) -> Seq<Spot<int>> {
        self.moving_spots() + self.held_spots(self.slots().len() as int) + Seq::new(
            self.minimized_windows.len(),
            |index: int| Spot::Minimized { index },
        )
    }

    /// There is a tile at this spot.
    pub open spec fn valid(self, spot: Spot<int>) -> bool {
        match spot {
            Spot::Moving => self.interactive_move is Some,
            Spot::Held { slot, place } => self.occupied(slot, place),
            Spot::Minimized { index } => 0 <= index < self.minimized_windows.len(),
        }
    }

    pub open spec fn tile(self, spot: Spot<int>) -> Tile<H> {
        match spot {
            Spot::Moving => self.interactive_move.unwrap().removed.tile,
            Spot::Held { slot, place } => self.workspace(slot).tile(place),
            Spot::Minimized { index } => self.minimized_windows[index].removed.tile,
        }
    }

    /// The layout with another tile at a spot.
    pub open spec fn with_tile(self, spot: Spot<int>, tile: Tile<H>) -> Self {
        match spot {
            Spot::Moving => LayoutView {
                interactive_move: Some(
                    InteractiveMove {
                        removed: RemovedTile { tile, ..self.interactive_move.unwrap().removed },
                        ..self.interactive_move.unwrap()
                    },
                ),
                ..self
            },
            Spot::Held { slot, place } => self.with_workspace(
                slot,
                self.workspace(slot).with_tile(place, tile),
            ),
            Spot::Minimized { index } => LayoutView {
                minimized_windows: self.minimized_windows.update(
                    index,
                    self.minimized_windows[index].with_tile(tile),
                ),
                ..self
            },
        }
    }

    /// The layout with new tiles in its first `n` spots.
    pub open spec fn with_tiles(self, tiles: Seq<Tile<H>>, n: int) -> Self
        decreases n,
    {
        if n <= 0 {
            self
        } else {
            self.with_tiles(tiles, n - 1).with_tile(self.spots()[n - 1], tiles[n - 1])
        }
    }
}

/// A list of positions as values.
pub open spec fn views<P: View>(list: Seq<P>) -> Seq<P::V> {
    list.map_values(|p: P| p@)
}

proof fn lemma_views_push<P: View>(list: Seq<P>, p: P)
    ensures
        views(list.push(p)) == views(list).push(p@),
{
    assert(views(list.push(p)) =~= views(list).push(p@));
}

impl<H: Host> Workspace<H> {
    /// All places of the workspace.
    pub fn places(&self) -> (res: Vec<Place<usize>>)
        ensures
            views(res@) == self@.places(),
    {
        let mut res: Vec<Place<usize>> = Vec::new();
        let mut column: usize = 0;
        while column < self.columns.len()
            invariant
                column <= self.columns@.len(),
                views(res@) == self@.tiled_places(column as int),
            decreases self.columns@.len() - column,
        {
            let ghost before = views(res@);
            let mut row: usize = 0;
            while row < self.columns[column].tiles.len()
                invariant
                    column < self.columns@.len(),
                    row <= self.columns@[column as int].tiles@.len(),
                        views(res@) == before + Seq::new(
                        row as nat,
                        |r: int| Place::Tiled { column: column as int, row: r },
                    ),
                decreases self.columns@[column as int].tiles@.len() - row,
            {
                proof {
                    lemma_views_push(res@, Place::Tiled { column, row });
                }
                res.push(Place::Tiled { column, row });
                row += 1;
                assert(views(res@) =~= before + Seq::new(
                    row as nat,
                    |r: int| Place::Tiled { column: column as int, row: r },
                ));
            }
            column += 1;
            assert(views(res@) =~= self@.tiled_places(column as int));
        }
        let ghost before = views(res@);
        let mut index: usize = 0;
        while index < self.floating.len()
            invariant
                index <= self.floating@.len(),
                views(res@) == before + Seq::new(
                    index as nat,
                    |i: int| Place::Floating { index: i },
                ),
            decreases self.floating@.len() - index,
        {
            proof {
                lemma_views_push(res@, Place::Floating { index });
            }
            res.push(Place::Floating { index });
            index += 1;
            assert(views(res@) =~= before + Seq::new(
                index as nat,
                |i: int| Place::Floating { index: i },
            ));
        }
        assert(views(res@) =~= self@.places());
        res
    }
}

impl<H: Host> Layout<H> {
    /// All workspaces.
    pub fn slots(&self) -> (res: Vec<Slot<usize>>)
        ensures
            views(res@) == self@.slots(),
    {
        let mut res: Vec<Slot<usize>> = Vec::new();
        let mut monitor: usize = 0;
        while monitor < self.monitors.len()
            invariant
                monitor <= self.monitors@.len(),
                views(res@) == self@.monitor_slots(monitor as int),
            decreases self.monitors@.len() - monitor,
        {
            let ghost before = views(res@);
            let mut workspace: usize = 0;
            while workspace < self.monitors[monitor].workspaces.len()
                invariant
                    monitor < self.monitors@.len(),
                    workspace <= self.monitors@[monitor as int].workspaces@.len(),
                    views(res@) == before + Seq::new(
                        workspace as nat,
                        |w: int| Slot::OnMonitor { monitor: monitor as int, workspace: w },
                    ),
                decreases self.monitors@[monitor as int].workspaces@.len() - workspace,
            {
                proof {
                    lemma_views_push(res@, Slot::OnMonitor { monitor, workspace });
                }
                res.push(Slot::OnMonitor { monitor, workspace });
                workspace += 1;
                assert(views(res@) =~= before + Seq::new(
                    workspace as nat,
                    |w: int| Slot::OnMonitor { monitor: monitor as int, workspace: w },
                ));
            }
            monitor += 1;
            assert(views(res@) =~= self@.monitor_slots(monitor as int));
        }
        let ghost before = views(res@);
        let mut workspace: usize = 0;
        while workspace < self.orphans.len()
            invariant
                workspace <= self.orphans@.len(),
                views(res@) == before + Seq::new(
                    workspace as nat,
                    |w: int| Slot::Orphan { workspace: w },
                ),
            decreases self.orphans@.len() - workspace,
        {
            proof {
                lemma_views_push(res@, Slot::Orphan { workspace });
            }
            res.push(Slot::Orphan { workspace });
            workspace += 1;
            assert(views(res@) =~= before + Seq::new(
                workspace as nat,
                |w: int| Slot::Orphan { workspace: w },
            ));
        }
        assert(views(res@) =~= self@.slots());
        res
    }

    pub fn workspace_at(&self, slot: &Slot<usize>) -> (res: &Workspace<H>)
        requires
            self@.has_slot(slot@),
        ensures
            res@ == self@.workspace(slot@),
    {
        match slot {
            Slot::OnMonitor { monitor, workspace } => {
                &self.monitors[*monitor].workspaces[*workspace]
            },
            Slot::Orphan { workspace } => &self.orphans[*workspace],
        }
    }

    /// Every spot that holds a tile.
    pub fn spots(&self) -> (res: Vec<Spot<usize>>)
        ensures
            views(res@) == self@.spots(),
    {
        let mut res: Vec<Spot<usize>> = Vec::new();
        if self.interactive_move.is_some() {
            res.push(Spot::Moving);
        }
        assert(views(res@) =~= self@.moving_spots());
        let slots = self.slots();
        let mut n: usize = 0;
        while n < slots.len()
            invariant
                n <= slots@.len(),
                views(slots@) == self@.slots(),
                views(res@) == self@.moving_spots() + self@.held_spots(n as int),
            decreases slots@.len() - n,
        {
            let slot = &slots[n];
            assert(views(slots@)[n as int] == slot@);
            proof {
                lemma_slots(self@);
            }
            let places = self.workspace_at(slot).places();
            let ghost before = views(res@);
            let ghost wanted = self@.slot_spots(slot@);
            let mut i: usize = 0;
            while i < places.len()
                invariant
                    i <= places@.len(),
                    views(places@) == self@.workspace(slot@).places(),
                    wanted == self@.slot_spots(slot@),
                    views(res@) == before + wanted.take(i as int),
                decreases places@.len() - i,
            {
                let spot = Spot::Held { slot: *slot, place: places[i] };
                assert(views(places@)[i as int] == places@[i as int]@);
                proof {
                    lemma_views_push(res@, spot);
                }
                res.push(spot);
                i += 1;
                assert(views(res@) =~= before + wanted.take(i as int));
            }
            n += 1;
            assert(wanted.take(i as int) =~= wanted);
            assert(views(res@) =~= self@.moving_spots() + self@.held_spots(n as int));
        }
        let ghost before = views(res@);
        let mut index: usize = 0;
        while index < self.minimized_windows.len()
            invariant
                index <= self.minimized_windows@.len(),
                views(res@) == before + Seq::new(
                    index as nat,
                    |i: int| Spot::Minimized { index: i },
                ),
            decreases self.minimized_windows@.len() - index,
        {
            proof {
                lemma_views_push(res@, Spot::Minimized { index });
            }
            res.push(Spot::Minimized { index });
            index += 1;
            assert(views(res@) =~= before + Seq::new(
                index as nat,
                |i: int| Spot::Minimized { index: i },
            ));
        }
        assert(views(res@) =~= self@.spots());
        res
    }
}

/// The listed places of the first columns are exactly theirs, each listed once.
proof fn lemma_tiled_places<H: Host>(ws: WorkspaceView<H>, n: int)
    requires
        0 <= n <= ws.columns.len(),
    ensures
        forall|i: int|
            0 <= i < ws.tiled_places(n).len() ==> ws.valid(#[trigger] ws.tiled_places(n)[i])
                && ws.tiled_places(n)[i] is Tiled && ws.tiled_places(n)[i]->column < n,
        forall|p: Place<int>|
            ws.valid(p) && p is Tiled && p->column < n ==> #[trigger] ws.tiled_places(n).contains(
                p,
            ),
        ws.tiled_places(n).no_duplicates(),
        ws.tiled_places(n).map_values(|p: Place<int>| ws.tile(p)) == column_lists(ws.columns).take(
            n,
        ).flatten(),
    decreases n,
{
    let tile = |p: Place<int>| ws.tile(p);
    let lists = column_lists(ws.columns);
    if n > 0 {
        lemma_tiled_places(ws, n - 1);
        let before = ws.tiled_places(n - 1);
        let last = Seq::new(
            ws.columns[n - 1].tiles.len(),
            |row: int| Place::Tiled { column: n - 1, row },
        );
        let all = ws.tiled_places(n);
        assert(all == before + last);
        assert forall|p: Place<int>| ws.valid(p) && p is Tiled && p->column < n implies
            #[trigger] all.contains(p) by {
            if p->column < n - 1 {
                assert(before.contains(p));
                let k = choose|k: int| 0 <= k < before.len() && before[k] == p;
                assert(all[k] == p);
            } else {
                assert(last[p->row] == p);
                assert(all[before.len() + p->row] == p);
            }
        }
        assert forall|i: int, j: int| 0 <= i < j < all.len() implies all[i] != all[j] by {
            if j < before.len() {
                assert(before[i] != before[j]);
            } else if i < before.len() {
                assert(before[i]->column < n - 1);
                assert(all[j] == last[j - before.len()]);
            } else {
                assert(all[i] == last[i - before.len()]);
                assert(all[j] == last[j - before.len()]);
            }
        }
        assert(last.map_values(tile) =~= ws.columns[n - 1].tiles);
        assert(all.map_values(tile) =~= before.map_values(tile) + last.map_values(tile));
        assert(lists.take(n) =~= lists.take(n - 1).push(ws.columns[n - 1].tiles));
        lists.take(n - 1).lemma_flatten_push(ws.columns[n - 1].tiles);
    } else {
        assert(lists.take(n) =~= Seq::empty());
        assert(ws.tiled_places(n).map_values(tile) =~= Seq::<Tile<H>>::empty());
    }
}

/// The listed places of a workspace are exactly those that hold a tile, each listed once.
pub proof fn lemma_places<H: Host>(ws: WorkspaceView<H>)
    ensures
        forall|i: int| 0 <= i < ws.places().len() ==> ws.valid(#[trigger] ws.places()[i]),
        forall|p: Place<int>| ws.valid(p) ==> #[trigger] ws.places().contains(p),
        ws.places().no_duplicates(),
        ws.places().map_values(|p: Place<int>| ws.tile(p)) == ws.tiles(),
{
    let n = ws.columns.len() as int;
    let tile = |p: Place<int>| ws.tile(p);
    lemma_tiled_places(ws, n);
    let tiled = ws.tiled_places(n);
    let floating = Seq::new(ws.floating.len(), |index: int| Place::Floating { index });
    let all = ws.places();
    assert forall|p: Place<int>| ws.valid(p) implies #[trigger] all.contains(p) by {
        match p {
            Place::Tiled { .. } => {
                assert(tiled.contains(p));
                let k = choose|k: int| 0 <= k < tiled.len() && tiled[k] == p;
                assert(all[k] == p);
            },
            Place::Floating { index } => {
                assert(all[tiled.len() + index] == p);
            },
        }
    }
    assert forall|i: int, j: int| 0 <= i < j < all.len() implies all[i] != all[j] by {
        if j < tiled.len() {
            assert(tiled[i] != tiled[j]);
        } else if i < tiled.len() {
            assert(tiled[i] is Tiled);
        }
    }
    assert(column_lists(ws.columns).take(n) =~= column_lists(ws.columns));
    assert(floating.map_values(tile) =~= ws.floating);
    assert(all.map_values(tile) =~= tiled.map_values(tile) + floating.map_values(tile));
}

impl<H: Host> LayoutView<H> {
    /// The tiles of a list of workspaces, workspace by workspace.
    spec fn gathered(self, slots: Seq<Slot<int>>) -> Seq<Seq<Tile<H>>> {
        slots.map_values(|slot: Slot<int>| self.workspace(slot).tiles())
    }
}

proof fn lemma_monitor_slots<H: Host>(l: LayoutView<H>, n: int)
    requires
        0 <= n <= l.monitors.len(),
    ensures
        forall|i: int|
            0 <= i < l.monitor_slots(n).len() ==> l.has_slot(#[trigger] l.monitor_slots(n)[i])
                && l.monitor_slots(n)[i] is OnMonitor && l.monitor_slots(n)[i]->monitor < n,
        forall|s: Slot<int>|
            l.has_slot(s) && s is OnMonitor && s->monitor < n
                ==> #[trigger] l.monitor_slots(n).contains(s),
        l.monitor_slots(n).no_duplicates(),
        l.gathered(l.monitor_slots(n)).flatten() == monitor_lists(l.monitors).take(n).flatten(),
    decreases n,
{
    let lists = monitor_lists(l.monitors);
    if n > 0 {
        lemma_monitor_slots(l, n - 1);
        let mon = l.monitors[n - 1];
        let before = l.monitor_slots(n - 1);
        let last = Seq::new(
            mon.workspaces.len(),
            |workspace: int| Slot::OnMonitor { monitor: n - 1, workspace },
        );
        let all = l.monitor_slots(n);
        assert(all == before + last);
        assert forall|s: Slot<int>| l.has_slot(s) && s is OnMonitor && s->monitor < n implies
            #[trigger] all.contains(s) by {
            if s->monitor < n - 1 {
                assert(before.contains(s));
                let k = choose|k: int| 0 <= k < before.len() && before[k] == s;
                assert(all[k] == s);
            } else {
                assert(all[before.len() + s->OnMonitor_workspace] == s);
            }
        }
        assert forall|i: int, j: int| 0 <= i < j < all.len() implies all[i] != all[j] by {
            if j < before.len() {
                assert(before[i] != before[j]);
            } else if i < before.len() {
                assert(before[i]->monitor < n - 1);
                assert(all[j] == last[j - before.len()]);
            } else {
                assert(all[i] == last[i - before.len()]);
                assert(all[j] == last[j - before.len()]);
            }
        }
        assert(l.gathered(last) =~= workspace_lists(mon.workspaces));
        assert(l.gathered(all) =~= l.gathered(before) + l.gathered(last));
        vstd::seq_lib::lemma_flatten_concat(l.gathered(before), l.gathered(last));
        assert(lists.take(n) =~= lists.take(n - 1).push(mon.tiles()));
        lists.take(n - 1).lemma_flatten_push(mon.tiles());
    } else {
        assert(lists.take(n) =~= Seq::empty());
        assert(l.gathered(l.monitor_slots(n)) =~= Seq::<Seq<Tile<H>>>::empty());
    }
}

/// The listed workspaces are exactly those that exist, each listed once.
pub proof fn lemma_slots<H: Host>(l: LayoutView<H>)
    ensures
        forall|i: int| 0 <= i < l.slots().len() ==> l.has_slot(#[trigger] l.slots()[i]),
        forall|s: Slot<int>| l.has_slot(s) ==> #[trigger] l.slots().contains(s),
        l.slots().no_duplicates(),
{
    lemma_gathered(l);
}

proof fn lemma_gathered<H: Host>(l: LayoutView<H>)
    ensures
        forall|i: int| 0 <= i < l.slots().len() ==> l.has_slot(#[trigger] l.slots()[i]),
        forall|s: Slot<int>| l.has_slot(s) ==> #[trigger] l.slots().contains(s),
        l.slots().no_duplicates(),
        l.gathered(l.slots()).flatten() == l.placed(),
{
    let n = l.monitors.len() as int;
    lemma_monitor_slots(l, n);
    let before = l.monitor_slots(n);
    let last = Seq::new(l.orphans.len(), |workspace: int| Slot::Orphan { workspace });
    let all = l.slots();
    assert forall|s: Slot<int>| l.has_slot(s) implies #[trigger] all.contains(s) by {
        match s {
            Slot::OnMonitor { .. } => {
                assert(before.contains(s));
                let k = choose|k: int| 0 <= k < before.len() && before[k] == s;
                assert(all[k] == s);
            },
            Slot::Orphan { workspace } => {
                assert(all[before.len() + workspace] == s);
            },
        }
    }
    assert forall|i: int, j: int| 0 <= i < j < all.len() implies all[i] != all[j] by {
        if j < before.len() {
            assert(before[i] != before[j]);
        } else if i < before.len() {
            assert(before[i] is OnMonitor);
        }
    }
    assert(monitor_lists(l.monitors).take(n) =~= monitor_lists(l.monitors));
    assert(l.gathered(last) =~= workspace_lists(l.orphans));
    assert(l.gathered(all) =~= l.gathered(before) + l.gathered(last));
    vstd::seq_lib::lemma_flatten_concat(l.gathered(before), l.gathered(last));
}

proof fn lemma_held_spots<H: Host>(l: LayoutView<H>, n: int)
    requires
        0 <= n <= l.slots().len(),
    ensures
        forall|i: int|
            0 <= i < l.held_spots(n).len() ==> {
                let spot = #[trigger] l.held_spots(n)[i];
                spot is Held && l.valid(spot) && l.slots().take(n).contains(spot->slot)
            },
        forall|s: Spot<int>|
            l.valid(s) && s is Held && l.slots().take(n).contains(s->slot)
                ==> #[trigger] l.held_spots(n).contains(s),
        l.held_spots(n).no_duplicates(),
        l.held_spots(n).map_values(|s: Spot<int>| l.tile(s)) == l.gathered(
            l.slots().take(n),
        ).flatten(),
    decreases n,
{
    let tile = |s: Spot<int>| l.tile(s);
    let slots = l.slots();
    lemma_slots(l);
    if n > 0 {
        lemma_held_spots(l, n - 1);
        let slot = slots[n - 1];
        let ws = l.workspace(slot);
        lemma_places(ws);
        let before = l.held_spots(n - 1);
        let last = l.slot_spots(slot);
        let all = l.held_spots(n);
        assert(slots.take(n) =~= slots.take(n - 1).push(slot));
        assert forall|i: int| 0 <= i < all.len() implies {
            let spot = #[trigger] all[i];
            spot is Held && l.valid(spot) && slots.take(n).contains(spot->slot)
        } by {
            if i < before.len() {
                let inner = before[i]->slot;
                let earlier = slots.take(n - 1);
                let k = choose|k: int| 0 <= k < earlier.len() && earlier[k] == inner;
                assert(slots.take(n)[k] == inner);
            } else {
                assert(ws.valid(ws.places()[i - before.len()]));
                assert(slots.take(n)[n - 1] == slot);
            }
        }
        assert forall|s: Spot<int>|
            l.valid(s) && s is Held && slots.take(n).contains(s->slot) implies
            #[trigger] all.contains(s) by {
            let now = slots.take(n);
            let k = choose|k: int| 0 <= k < now.len() && now[k] == s->slot;
            if k < n - 1 {
                assert(slots.take(n - 1)[k] == s->slot);
                assert(before.contains(s));
                let i = choose|i: int| 0 <= i < before.len() && before[i] == s;
                assert(all[i] == s);
            } else {
                assert(ws.places().contains(s->place));
                let i = choose|i: int| 0 <= i < ws.places().len() && ws.places()[i] == s->place;
                assert(all[before.len() + i] == s);
            }
        }
        assert forall|i: int, j: int| 0 <= i < j < all.len() implies all[i] != all[j] by {
            if j < before.len() {
                assert(before[i] != before[j]);
            } else if i < before.len() {
                let inner = before[i]->slot;
                let earlier = slots.take(n - 1);
                let k = choose|k: int| 0 <= k < earlier.len() && earlier[k] == inner;
                assert(slots[k] != slots[n - 1]);
                assert(all[j] == last[j - before.len()]);
            } else {
                assert(ws.places()[i - before.len()] != ws.places()[j - before.len()]);
                assert(all[i] == last[i - before.len()]);
                assert(all[j] == last[j - before.len()]);
            }
        }
        assert(last.map_values(tile) =~= ws.places().map_values(|p: Place<int>| ws.tile(p)));
        assert(all.map_values(tile) =~= before.map_values(tile) + last.map_values(tile));
        assert(l.gathered(slots.take(n)) =~= l.gathered(slots.take(n - 1)).push(ws.tiles()));
        l.gathered(slots.take(n - 1)).lemma_flatten_push(ws.tiles());
    } else {
        assert(l.gathered(slots.take(n)) =~= Seq::<Seq<Tile<H>>>::empty());
        assert(l.held_spots(n).map_values(tile) =~= Seq::<Tile<H>>::empty());
    }
}

/// The listed spots are exactly those that hold a tile, each listed once, and their tiles are the
/// tiles that the layout owns.
pub proof fn lemma_spots<H: Host>(l: LayoutView<H>)
    ensures
        forall|i: int| 0 <= i < l.spots().len() ==> l.valid(#[trigger] l.spots()[i]),
        forall|s: Spot<int>| l.valid(s) ==> #[trigger] l.spots().contains(s),
        l.spots().no_duplicates(),
        l.spots().map_values(|s: Spot<int>| l.tile(s)) == l.tiles(),
{
    let tile = |s: Spot<int>| l.tile(s);
    let n = l.slots().len() as int;
    lemma_gathered(l);
    lemma_held_spots(l, n);
    assert(l.slots().take(n) =~= l.slots());
    let moving = l.moving_spots();
    let held = l.held_spots(n);
    let last = Seq::new(l.minimized_windows.len(), |index: int| Spot::Minimized { index });
    let all = l.spots();
    assert(all == moving + held + last);
    assert forall|i: int| 0 <= i < all.len() implies l.valid(#[trigger] all[i]) by {
        if moving.len() <= i < moving.len() + held.len() {
            assert(l.valid(held[i - moving.len()]));
        }
    }
    assert forall|s: Spot<int>| l.valid(s) implies #[trigger] all.contains(s) by {
        match s {
            Spot::Moving => {
                assert(all[0] == s);
            },
            Spot::Held { slot, .. } => {
                assert(l.slots().contains(slot));
                assert(held.contains(s));
                let i = choose|i: int| 0 <= i < held.len() && held[i] == s;
                assert(all[moving.len() + i] == s);
            },
            Spot::Minimized { index } => {
                assert(all[moving.len() + held.len() + index] == s);
            },
        }
    }
    assert forall|i: int, j: int| 0 <= i < j < all.len() implies all[i] != all[j] by {
        if moving.len() <= i < moving.len() + held.len() {
            assert(held[i - moving.len()] is Held);
            if j < moving.len() + held.len() {
                assert(held[i - moving.len()] != held[j - moving.len()]);
            }
        } else if moving.len() <= j < moving.len() + held.len() {
            assert(held[j - moving.len()] is Held);
        }
    }
    assert(moving.map_values(tile) =~= l.moving());
    assert(last.map_values(tile) =~= minimized_tiles(l.minimized_windows));
    assert(all.map_values(tile) =~= moving.map_values(tile) + held.map_values(tile)
        + last.map_values(tile));
    assert(l.tiles() =~= l.moving() + l.placed() + minimized_tiles(l.minimized_windows));
}

} // verus!
