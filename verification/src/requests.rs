//! Fullscreen and maximization requests, also for windows that are minimized.

use vstd::prelude::*;

use crate::layout::{
    lemma_same_ownership, lemma_still_wf, minimized_tiles, Layout, LayoutView, Slot,
};
use crate::minimized::MinimizedWindow;
use crate::monitor::lemma_monitor_workspace;
use crate::ownership::{count, fits, lemma_count_add, lemma_count_pointwise, Key};
use crate::placement::{lemma_monitor_changed, lemma_orphan_changed, lemma_tiles_split};
use crate::sizing::{lemma_sized, Request};
use crate::tile::{RemovedTile, Tile};
use crate::types::{Host, Size, SizeRequest, SizingMode, WindowId};
use crate::window::Window;
use crate::workspace::Place;

verus! {

impl<H: Host> MinimizedWindow<H> {
    /// The entry with another window in its tile.
    pub open spec fn with_window(self, window: Window<H>) -> Self {
        MinimizedWindow {
            removed: RemovedTile { tile: Tile { window, ..self.removed.tile }, ..self.removed },
            ..self
        }
    }

    /// The entry after its window was asked for a sizing mode. The destination recomputes sizes
    /// when the window is restored; until then the window keeps its size, or goes back to its
    /// floating size when it becomes normal. Nobody sees it change: the request is neither animated
    /// nor part of a transaction.
    pub open spec fn resized(self, mode: SizingMode) -> Self {
        let tile = self.removed.tile;
        if tile.window.pending_sizing_mode == mode {
            self
        } else {
            let size = if mode == SizingMode::Normal {
                tile.floating_size()
            } else {
                tile.window.size
            };
            self.with_window(
                tile.window.requested(SizeRequest { size, animate: false, transaction: None }, mode),
            )
        }
    }

    /// The entry after a fullscreen request was made or withdrawn. Maximization comes back from
    /// underneath fullscreen. Leaving windowed fullscreen changes nothing else.
    pub open spec fn fullscreened(self, fullscreen: bool) -> Self {
        let window = self.removed.tile.window;
        if !fullscreen && window.pending_windowed_fullscreen {
            self.with_window(Window { pending_windowed_fullscreen: false, ..window })
        } else if fullscreen {
            self.resized(SizingMode::Fullscreen)
        } else if self.maximized {
            self.resized(SizingMode::Maximized)
        } else {
            self.resized(SizingMode::Normal)
        }
    }

    /// The entry after a maximization request was made or withdrawn. Underneath fullscreen it is
    /// only remembered.
    pub open spec fn maximized_as(self, maximized: bool) -> Self {
        let noted = MinimizedWindow { maximized, ..self };
        if self.removed.tile.window.pending_sizing_mode == SizingMode::Fullscreen {
            noted
        } else if maximized {
            noted.resized(SizingMode::Maximized)
        } else {
            noted.resized(SizingMode::Normal)
        }
    }

    fn request_minimized_sizing_mode(&mut self, mode: SizingMode)
        ensures
            *final(self) == old(self).resized(mode),
    {
        if self.removed.tile.window.pending_sizing_mode == mode {
            return;
        }
        let size: Size = if mode.is_normal() {
            match self.removed.tile.floating_window_size {
                Some(size) => size,
                None => self.removed.tile.window.size,
            }
        } else {
            self.removed.tile.window.size
        };
        self.removed.tile.window.request_size(size, mode, false, None);
    }
}

impl<H: Host> LayoutView<H> {
    /// The layout with another entry in the queue.
    pub open spec fn with_entry(self, index: int, entry: MinimizedWindow<H>) -> Self {
        LayoutView { minimized_windows: self.minimized_windows.update(index, entry), ..self }
    }

    /// The layout after a sizing request for the tile at a place.
    pub open spec fn with_sized(
        self,
        slot: Slot<int>,
        place: Place<int>,
        request: Request,
        on: bool,
    ) -> Self {
        self.with_workspace(slot, self.workspace(slot).sized(place, request, on))
    }
}

impl<H: Host> Layout<H> {
    pub fn set_minimized_fullscreen(&mut self, id: &WindowId, fullscreen: bool) -> (res: bool)
        requires
            old(self)@.wf(),
        ensures
            final(self)@.wf(),
            res == old(self)@.minimized(*id),
            res ==> exists|index: int|
                {
                    &&& #[trigger] old(self)@.minimized_at(index, *id)
                    &&& final(self)@ == old(self)@.with_entry(
                        index,
                        old(self)@.minimized_windows[index].fullscreened(fullscreen),
                    )
                },
            !res ==> final(self)@ == old(self)@,
    {
        let index: usize = match self.find_minimized(id) {
            Some(index) => index,
            None => {
                return false;
            },
        };
        let ghost entry = self@.minimized_windows[index as int];
        if !fullscreen
            && self.minimized_windows[index].removed.tile.window.pending_windowed_fullscreen {
            self.minimized_windows[index].removed.tile.window.pending_windowed_fullscreen = false;
        } else {
            let mode = if fullscreen {
                SizingMode::Fullscreen
            } else if self.minimized_windows[index].maximized {
                SizingMode::Maximized
            } else {
                SizingMode::Normal
            };
            self.minimized_windows[index].request_minimized_sizing_mode(mode);
        }
        proof {
            assert(old(self)@.minimized_at(index as int, *id));
            assert(entry.wf());
            assert(self@ =~~= old(self)@.with_entry(index as int, entry.fullscreened(fullscreen)));
            lemma_entry(old(self)@, index as int, entry.fullscreened(fullscreen));
        }
        true
    }

    pub fn set_minimized_maximized(&mut self, id: &WindowId, maximized: bool) -> (res: bool)
        requires
            old(self)@.wf(),
        ensures
            final(self)@.wf(),
            res == old(self)@.minimized(*id),
            res ==> exists|index: int|
                {
                    &&& #[trigger] old(self)@.minimized_at(index, *id)
                    &&& final(self)@ == old(self)@.with_entry(
                        index,
                        old(self)@.minimized_windows[index].maximized_as(maximized),
                    )
                },
            !res ==> final(self)@ == old(self)@,
    {
        let index: usize = match self.find_minimized(id) {
            Some(index) => index,
            None => {
                return false;
            },
        };
        let ghost entry = self@.minimized_windows[index as int];
        self.minimized_windows[index].maximized = maximized;
        if !self.minimized_windows[index].removed.tile.window.pending_sizing_mode.is_fullscreen() {
            let mode = if maximized {
                SizingMode::Maximized
            } else {
                SizingMode::Normal
            };
            self.minimized_windows[index].request_minimized_sizing_mode(mode);
        }
        proof {
            assert(old(self)@.minimized_at(index as int, *id));
            assert(entry.wf());
            assert(self@ =~~= old(self)@.with_entry(index as int, entry.maximized_as(maximized)));
            lemma_entry(old(self)@, index as int, entry.maximized_as(maximized));
        }
        true
    }

    /// Makes or withdraws a fullscreen request, wherever the window is. A window that the pointer
    /// holds is left alone.
    pub fn set_fullscreen(&mut self, id: &WindowId, fullscreen: bool)
        requires
            old(self)@.wf(),
        ensures
            final(self)@.wf(),
            old(self)@.minimized(*id) ==> exists|index: int|
                {
                    &&& #[trigger] old(self)@.minimized_at(index, *id)
                    &&& final(self)@ == old(self)@.with_entry(
                        index,
                        old(self)@.minimized_windows[index].fullscreened(fullscreen),
                    )
                },
            !old(self)@.minimized(*id) && old(self)@.holds(*id) ==> exists|
                slot: Slot<int>,
                place: Place<int>,
            |
                {
                    &&& #[trigger] old(self)@.holds_at(slot, place, *id)
                    &&& final(self)@ == old(self)@.with_sized(
                        slot,
                        place,
                        Request::Fullscreen,
                        fullscreen,
                    )
                },
            !old(self)@.minimized(*id) && !old(self)@.holds(*id) ==> final(self)@ == old(self)@,
    {
        if !self.set_minimized_fullscreen(id, fullscreen) {
            self.set_held_sizing(id, Request::Fullscreen, fullscreen);
        }
    }

    /// Makes or withdraws a maximization request, wherever the window is. A window that the
    /// pointer holds is left alone.
    pub fn set_maximized(&mut self, id: &WindowId, maximized: bool)
        requires
            old(self)@.wf(),
        ensures
            final(self)@.wf(),
            old(self)@.minimized(*id) ==> exists|index: int|
                {
                    &&& #[trigger] old(self)@.minimized_at(index, *id)
                    &&& final(self)@ == old(self)@.with_entry(
                        index,
                        old(self)@.minimized_windows[index].maximized_as(maximized),
                    )
                },
            !old(self)@.minimized(*id) && old(self)@.holds(*id) ==> exists|
                slot: Slot<int>,
                place: Place<int>,
            |
                {
                    &&& #[trigger] old(self)@.holds_at(slot, place, *id)
                    &&& final(self)@ == old(self)@.with_sized(
                        slot,
                        place,
                        Request::Maximized,
                        maximized,
                    )
                },
            !old(self)@.minimized(*id) && !old(self)@.holds(*id) ==> final(self)@ == old(self)@,
    {
        if !self.set_minimized_maximized(id, maximized) {
            self.set_held_sizing(id, Request::Maximized, maximized);
        }
    }

    fn set_held_sizing(&mut self, id: &WindowId, request: Request, on: bool)
        requires
            old(self)@.wf(),
        ensures
            final(self)@.wf(),
            old(self)@.holds(*id) ==> exists|slot: Slot<int>, place: Place<int>|
                {
                    &&& #[trigger] old(self)@.holds_at(slot, place, *id)
                    &&& final(self)@ == old(self)@.with_sized(slot, place, request, on)
                },
            !old(self)@.holds(*id) ==> final(self)@ == old(self)@,
    {
        if let Some((slot, place)) = self.find_slot(id) {
            proof {
                assert(old(self)@.holds_at(slot@, place@, *id));
                lemma_layout_sized(old(self)@, slot@, place@, request, on);
            }
            self.set_sizing_at(&slot, &place, request, on);
        }
    }
}

/// Another entry for the same window keeps the layout well-formed.
pub proof fn lemma_entry<H: Host>(l: LayoutView<H>, index: int, entry: MinimizedWindow<H>)
    requires
        l.wf(),
        0 <= index < l.minimized_windows.len(),
        entry.wf(),
        forall|key: Key<H>| #[trigger]
            fits(key, entry.removed.tile) == fits(key, l.minimized_windows[index].removed.tile),
    ensures
        l.with_entry(index, entry).wf(),
{
    let after = l.with_entry(index, entry);
    let before = minimized_tiles(l.minimized_windows);
    assert(after.ordinary() == l.ordinary());
    assert forall|key: Key<H>| #[trigger] count(after.tiles(), key) == count(l.tiles(), key) by {
        assert(minimized_tiles(after.minimized_windows) =~= before.update(
            index,
            entry.removed.tile,
        ));
        assert(fits(key, entry.removed.tile) == fits(key, before[index]));
        lemma_count_pointwise(before, before.update(index, entry.removed.tile), key);
        lemma_count_add(l.ordinary(), before, key);
        lemma_count_add(l.ordinary(), minimized_tiles(after.minimized_windows), key);
    }
    assert forall|i: int| 0 <= i < after.minimized_windows.len() implies (
    #[trigger] after.minimized_windows[i]).wf() by {
        assert(l.minimized_windows[i].wf());
    }
    lemma_still_wf(l, after);
}

/// A sizing request keeps the layout well-formed, and what it owns.
pub proof fn lemma_layout_sized<H: Host>(
    l: LayoutView<H>,
    slot: Slot<int>,
    place: Place<int>,
    request: Request,
    on: bool,
)
    requires
        l.wf(),
        l.occupied(slot, place),
    ensures
        l.with_sized(slot, place, request, on).wf(),
        forall|key: Key<H>| #[trigger]
            count(l.with_sized(slot, place, request, on).tiles(), key) == count(l.tiles(), key),
{
    let after = l.with_sized(slot, place, request, on);
    assert forall|key: Key<H>| true implies {
        &&& after.shaped()
        &&& count(after.ordinary(), key) == count(l.ordinary(), key)
        &&& #[trigger] count(after.tiles(), key) == count(l.tiles(), key)
    } by {
        let ws = l.workspace(slot);
        let value = ws.sized(place, request, on);
        lemma_tiles_split(l, key);
        lemma_tiles_split(after, key);
        match slot {
            Slot::OnMonitor { monitor, workspace } => {
                let mon = l.monitors[monitor];
                assert(mon.wf());
                assert(ws.wf());
                lemma_sized(ws, place, request, on, key);
                lemma_monitor_workspace(mon, workspace, value, key);
                lemma_monitor_changed(
                    l,
                    after,
                    monitor,
                    mon.with_workspace(workspace, value),
                    key,
                );
            },
            Slot::Orphan { workspace } => {
                assert(ws.wf());
                lemma_sized(ws, place, request, on, key);
                lemma_orphan_changed(l, after, workspace, value, key);
            },
        }
    }
    assert(count(after.tiles(), Key::Minimized) >= 0);
    lemma_same_ownership(l, after);
}

} // verus!
