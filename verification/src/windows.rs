//! Windows opening and closing, and the focus.

use vstd::prelude::*;

use crate::laws::law_window_has_one_place;
use crate::layout::{lemma_still_wf, minimized_tiles, Layout, LayoutView, Slot};
use crate::ownership::{
    count, fits, lemma_count_at, lemma_count_remove, lemma_count_unique, one, Key,
};
use crate::placement::{lemma_added, lemma_added_orphan, lemma_tiles_split, lemma_without};
use crate::retile::lemma_replaced;
use crate::spots::{lemma_spots, Spot};
use crate::tile::{RemovedTile, Tile};
use crate::types::{ActivateWindow, Clock, Host, Options, WindowId, WorkspaceId};
use crate::workspace::Place;

verus! {

impl<H: Host> LayoutView<H> {
    /// The layout without outputs and windows.
    pub open spec fn vacant(clock: Clock, options: Options) -> Self {
        LayoutView {
            monitors: Seq::empty(),
            active_monitor_idx: 0,
            orphans: Seq::empty(),
            interactive_move: None,
            minimized_windows: Seq::empty(),
            minimize_animations: Seq::empty(),
            minimize_targets: Seq::empty(),
            overview_open: false,
            clock,
            options,
            next_workspace_id: 0,
        }
    }

    /// The layout with a new window: on the active workspace, or on the first one while no output
    /// is connected.
    pub open spec fn with_window(self, removed: RemovedTile<H>, activate: ActivateWindow) -> Self {
        if self.monitors.len() > 0 {
            self.with_added(self.active_monitor_idx, removed, activate)
        } else {
            self.with_added_orphan(removed)
        }
    }

    /// The layout after the compositor found where the floating window at a place is.
    pub open spec fn with_position(
        self,
        slot: Slot<int>,
        place: Place<int>,
        position: H::Position,
        center: H::Center,
    ) -> Self {
        let spot = Spot::Held { slot, place };
        self.with_tile(
            spot,
            Tile { view_pos: Some(position), floating_center: Some(center), ..self.tile(spot) },
        )
    }

    /// What leaves the layout with the tile at a spot.
    pub open spec fn leaving(self, spot: Spot<int>) -> RemovedTile<H> {
        match spot {
            Spot::Moving => self.interactive_move.unwrap().removed,
            Spot::Held { slot, place } => self.removed(slot, place),
            Spot::Minimized { index } => self.minimized_windows[index].removed,
        }
    }

    /// The layout without the tile at a spot.
    pub open spec fn without_spot(self, spot: Spot<int>) -> Self {
        match spot {
            Spot::Moving => LayoutView { interactive_move: None, ..self },
            Spot::Held { slot, place } => self.without(slot, place),
            Spot::Minimized { index } => LayoutView {
                minimized_windows: self.minimized_windows.remove(index),
                ..self
            },
        }
    }
}

impl<H: Host> Layout<H> {
    /// A layout without outputs and windows.
    pub fn new(clock: Clock, options: Options) -> (res: Self)
        ensures
            res@.wf(),
            res@ == LayoutView::<H>::vacant(clock, options),
    {
        let res: Layout<H> = Layout {
            monitors: Vec::new(),
            active_monitor_idx: 0,
            orphans: Vec::new(),
            interactive_move: None,
            minimized_windows: Vec::new(),
            minimize_animations: Vec::new(),
            minimize_targets: Vec::new(),
            overview_open: false,
            clock,
            options,
            next_workspace_id: 0,
        };
        proof {
            assert(res@.monitors =~= Seq::empty());
            assert(res@.orphans =~= Seq::empty());
            lemma_spots(res@);
            assert(res@.slots() =~= Seq::empty());
            assert(res@.spots() =~= Seq::empty());
            assert(res@.tiles() =~= Seq::empty());
            assert(res@.ordinary() =~= Seq::empty());
        }
        res
    }

    /// Whether the window takes part in the ordinary layout.
    pub fn has_window(&self, id: &WindowId) -> (res: bool)
        ensures
            res == self@.lays_out(*id),
    {
        let moving = match &self.interactive_move {
            Some(m) => m.removed.tile.window.id == *id,
            None => false,
        };
        moving || self.find_slot(id).is_some()
    }

    /// The focused window.
    pub fn focus(&self) -> (res: Option<WindowId>)
        requires
            self@.wf(),
        ensures
            res == self@.focus(),
    {
        if self.monitors.len() == 0 {
            return None;
        }
        let monitor = &self.monitors[self.active_monitor_idx];
        assert(self@.monitors[self.active_monitor_idx as int].wf());
        assert(monitor@.workspaces[monitor.active_workspace_idx as int].wf());
        monitor.workspaces[monitor.active_workspace_idx].focus()
    }

    /// Adds a new window.
    pub fn add_window(&mut self, removed: RemovedTile<H>, activate: ActivateWindow)
        requires
            old(self)@.wf(),
            old(self)@.next_workspace_id < WorkspaceId::MAX,
            !old(self)@.manages(removed.tile.window.id),
            !removed.tile.window.minimized,
            !removed.tile.minimize_animation_hidden,
        ensures
            final(self)@.wf(),
            final(self)@ == old(self)@.with_window(removed, activate),
    {
        proof {
            lemma_window_added(old(self)@, removed, activate);
        }
        if self.monitors.len() > 0 {
            self.put_tile(self.active_monitor_idx, removed, activate);
        } else {
            self.put_orphan(removed);
        }
    }

    /// Notes where the compositor put a floating window: its position in the view of its workspace
    /// and its center relative to the working area. Returns whether the window floats in a
    /// workspace.
    pub fn set_floating_position(
        &mut self,
        id: &WindowId,
        position: H::Position,
        center: H::Center,
    ) -> (res: bool)
        requires
            old(self)@.wf(),
        ensures
            final(self)@.wf(),
            res == exists|slot: Slot<int>, place: Place<int>| #[trigger]
                old(self)@.holds_at(slot, place, *id) && place is Floating,
            res ==> exists|slot: Slot<int>, place: Place<int>|
                {
                    &&& #[trigger] old(self)@.holds_at(slot, place, *id)
                    &&& final(self)@ == old(self)@.with_position(slot, place, position, center)
                },
            !res ==> final(self)@ == old(self)@,
    {
        let (slot, place) = match self.find_slot(id) {
            Some(found) => found,
            None => {
                assert(!old(self)@.holds(*id));
                return false;
            },
        };
        assert(old(self)@.holds_at(slot@, place@, *id));
        match place {
            Place::Tiled { .. } => {
                proof {
                    assert forall|s: Slot<int>, p: Place<int>| #[trigger]
                        old(self)@.holds_at(s, p, *id) implies !(p is Floating) by {
                        law_window_has_one_place(old(self)@, *id, (slot@, place@), (s, p));
                    }
                }
                false
            },
            Place::Floating { .. } => {
                let spot = Spot::Held { slot, place };
                proof {
                    lemma_replaced(
                        old(self)@,
                        spot@,
                        Tile {
                            view_pos: Some(position),
                            floating_center: Some(center),
                            ..old(self)@.tile(spot@)
                        },
                    );
                }
                let tile = self.tile_at_mut(&spot);
                tile.view_pos = Some(position);
                tile.floating_center = Some(center);
                assert(self@ == old(self)@.with_position(slot@, place@, position, center));
                true
            },
        }
    }

    /// Gives up a window, wherever it is.
    pub fn remove_window(&mut self, id: &WindowId) -> (res: Option<RemovedTile<H>>)
        requires
            old(self)@.wf(),
        ensures
            final(self)@.wf(),
            match res {
                Some(removed) => exists|spot: Spot<int>|
                    {
                        &&& old(self)@.valid(spot)
                        &&& (#[trigger] old(self)@.tile(spot)).window.id == *id
                        &&& removed == old(self)@.leaving(spot)
                        &&& final(self)@ == old(self)@.without_spot(spot)
                    },
                None => !old(self)@.manages(*id) && final(self)@ == old(self)@,
            },
    {
        if let Some(index) = self.find_minimized(id) {
            proof {
                lemma_spot_removed(old(self)@, Spot::Minimized { index: index as int });
                assert(old(self)@.tile(Spot::Minimized { index: index as int }).window.id == *id);
            }
            let entry = self.minimized_windows.remove(index);
            assert(self@ =~~= old(self)@.without_spot(Spot::Minimized { index: index as int }));
            return Some(entry.removed);
        }
        let moving = match &self.interactive_move {
            Some(m) => m.removed.tile.window.id == *id,
            None => false,
        };
        if moving {
            proof {
                lemma_spot_removed(old(self)@, Spot::Moving);
                assert(old(self)@.tile(Spot::Moving).window.id == *id);
            }
            let taken = self.interactive_move.take();
            assert(self@ =~~= old(self)@.without_spot(Spot::Moving));
            return match taken {
                Some(m) => Some(m.removed),
                None => None,
            };
        }
        match self.find_slot(id) {
            Some((slot, place)) => {
                proof {
                    let spot = Spot::Held { slot: slot@, place: place@ };
                    assert(old(self)@.holds_at(slot@, place@, *id));
                    lemma_spot_removed(old(self)@, spot);
                    assert(old(self)@.tile(spot).window.id == *id);
                }
                Some(self.take_tile(&slot, &place))
            },
            None => {
                proof {
                    lemma_manages(old(self)@, *id);
                }
                None
            },
        }
    }
}

/// A managed window takes part in the layout or is minimized.
pub proof fn lemma_manages<H: Host>(l: LayoutView<H>, id: WindowId)
    ensures
        l.manages(id) == (l.lays_out(id) || l.minimized(id)),
        l.manages(id) == (count(l.tiles(), Key::Id(id)) > 0),
{
    if l.manages(id) {
        let spot = choose|spot: Spot<int>|
            l.valid(spot) && (#[trigger] l.tile(spot)).window.id == id;
        match spot {
            Spot::Moving => {},
            Spot::Held { slot, place } => {
                assert(l.holds_at(slot, place, id));
            },
            Spot::Minimized { index } => {
                assert(l.minimized_at(index, id));
            },
        }
        lemma_spots(l);
        assert(l.spots().contains(spot));
        let i = choose|i: int| 0 <= i < l.spots().len() && l.spots()[i] == spot;
        assert(l.tiles()[i] == l.tile(spot));
        lemma_count_at(l.tiles(), i, Key::Id(id));
    }
    if l.is_moving(id) {
        assert(l.tile(Spot::Moving).window.id == id);
        assert(l.valid(Spot::Moving));
    }
    if l.holds(id) {
        let (slot, place) = choose|slot: Slot<int>, place: Place<int>| l.holds_at(slot, place, id);
        let spot = Spot::Held { slot, place };
        assert(l.valid(spot) && l.tile(spot).window.id == id);
    }
    if l.minimized(id) {
        let index = choose|index: int| l.minimized_at(index, id);
        let spot = Spot::Minimized { index };
        assert(l.valid(spot) && l.tile(spot).window.id == id);
    }
    if count(l.tiles(), Key::Id(id)) > 0 {
        lemma_spots(l);
        let i = crate::ownership::lemma_count_witness(l.tiles(), Key::Id(id));
        let spot = l.spots()[i];
        assert(l.valid(spot));
        assert(l.tiles()[i] == l.tile(spot));
        assert(fits(Key::<H>::Id(id), l.tiles()[i]));
    }
}

/// A window in a workspace is nowhere else.
pub proof fn lemma_one_spot<H: Host>(l: LayoutView<H>, spot: Spot<int>, id: WindowId)
    requires
        l.owns_once(),
        l.valid(spot),
        l.tile(spot).window.id == id,
        l.holds(id),
    ensures
        spot is Held,
{
    let (slot, place) = choose|slot: Slot<int>, place: Place<int>| l.holds_at(slot, place, id);
    let held = Spot::Held { slot, place };
    let key = Key::<H>::Id(id);
    lemma_spots(l);
    assert(l.valid(held));
    assert(l.spots().contains(spot) && l.spots().contains(held));
    let i = choose|i: int| 0 <= i < l.spots().len() && l.spots()[i] == spot;
    let j = choose|j: int| 0 <= j < l.spots().len() && l.spots()[j] == held;
    assert(l.tiles()[i] == l.tile(spot) && l.tiles()[j] == l.tile(held));
    assert(count(l.tiles(), key) <= 1);
    lemma_count_unique(l.tiles(), i, j, key);
}

proof fn lemma_window_added<H: Host>(
    l: LayoutView<H>,
    removed: RemovedTile<H>,
    activate: ActivateWindow,
)
    requires
        l.wf(),
        !l.manages(removed.tile.window.id),
        !removed.tile.window.minimized,
        !removed.tile.minimize_animation_hidden,
    ensures
        l.with_window(removed, activate).wf(),
{
    let after = l.with_window(removed, activate);
    let id = removed.tile.window.id;
    lemma_manages(l, id);
    assert forall|key: Key<H>| true implies {
        &&& after.shaped()
        &&& count(after.ordinary(), key) == count(l.ordinary(), key) + one(removed.tile, key)
        &&& #[trigger] count(after.tiles(), key) == count(l.tiles(), key) + one(removed.tile, key)
    } by {
        lemma_tiles_split(l, key);
        lemma_tiles_split(after, key);
        if l.monitors.len() > 0 {
            lemma_added(l, l.active_monitor_idx, removed, activate, key);
        } else {
            lemma_added_orphan(l, removed, key);
        }
    }
    assert(count(after.tiles(), Key::Minimized) >= 0);
    assert forall|i: int| 0 <= i < after.minimized_windows.len() implies (
    #[trigger] after.minimized_windows[i]).wf() by {
        assert(l.minimized_windows[i].wf());
    }
    lemma_still_wf(l, after);
}

/// A tile that is given up is missing, and no other is.
pub proof fn lemma_spot_removed<H: Host>(l: LayoutView<H>, spot: Spot<int>)
    requires
        l.wf(),
        l.valid(spot),
    ensures
        l.without_spot(spot).wf(),
        l.leaving(spot).tile == l.tile(spot),
        forall|key: Key<H>| #[trigger]
            count(l.without_spot(spot).tiles(), key) + one(l.tile(spot), key) == count(
                l.tiles(),
                key,
            ),
{
    let after = l.without_spot(spot);
    assert forall|key: Key<H>| true implies {
        &&& after.shaped()
        &&& count(after.ordinary(), key) <= count(l.ordinary(), key)
        &&& #[trigger] count(after.tiles(), key) + one(l.tile(spot), key) == count(l.tiles(), key)
    } by {
        lemma_tiles_split(l, key);
        lemma_tiles_split(after, key);
        match spot {
            Spot::Moving => {
                assert(after.placed() == l.placed());
            },
            Spot::Held { slot, place } => {
                lemma_without(l, slot, place, key);
            },
            Spot::Minimized { index } => {
                assert(after.placed() == l.placed());
                lemma_count_remove(minimized_tiles(l.minimized_windows), index, key);
                assert(minimized_tiles(after.minimized_windows) =~= minimized_tiles(
                    l.minimized_windows,
                ).remove(index));
            },
        }
    }
    assert(count(after.tiles(), Key::Minimized) >= 0);
    assert forall|i: int| 0 <= i < after.minimized_windows.len() implies (
    #[trigger] after.minimized_windows[i]).wf() by {
        let k = if spot is Minimized && i >= spot->index {
            i + 1
        } else {
            i
        };
        assert(l.minimized_windows[k].wf());
    }
    lemma_still_wf(l, after);
}

} // verus!
