//! Minimizing and restoring windows.

use vstd::prelude::*;

use crate::laws::{law_activated_restore_focuses, law_restored_window};
use crate::layout::{
    lemma_same_ownership, lemma_still_wf, minimized_tiles, Layout, LayoutView, Slot,
};
use crate::minimize_laws::law_minimizing_keeps_the_focus_of_others;
use crate::monitor::{lemma_monitor_added, lemma_monitor_workspace};
use crate::ownership::{count, lemma_count_remove, one, Key};
use crate::placement::{
    lemma_added, lemma_count_has_slot, lemma_dropped, lemma_monitor_changed, lemma_slot_unique,
    lemma_tiles_split, lemma_without,
};
use crate::sizing::{lemma_sized, Request};
use crate::tile::{RemovedTile, Tile};
use crate::types::{ActivateWindow, Clock, Host, OutputId, SizingMode, WindowId, WorkspaceId};
use crate::workspace::{lemma_added_wf, Place};

verus! {

/// An owned tile with no workspace or output affiliation.
pub struct MinimizedWindow<H: Host> {
    pub removed: RemovedTile<H>,
    /// Center of the normal floating window, relative to the working area that it came from.
    pub floating_center: Option<H::Center>,
    /// Maximization can remain set underneath fullscreen.
    pub maximized: bool,
}

impl<H: Host> MinimizedWindow<H> {
    pub fn id(&self) -> (res: WindowId)
        ensures
            res == self.removed.tile.window.id,
    {
        self.removed.tile.window.id
    }

    /// The entry with another tile.
    pub open spec fn with_tile(self, tile: Tile<H>) -> Self {
        MinimizedWindow { removed: RemovedTile { tile, ..self.removed }, ..self }
    }

    /// The two notes of maximization agree. Underneath fullscreen there is only one.
    pub open spec fn sizes_agree(self) -> bool {
        let mode = self.removed.tile.window.pending_sizing_mode;
        mode != SizingMode::Fullscreen ==> self.maximized == (mode == SizingMode::Maximized)
    }

    /// The window is marked as minimized, its tile is not hidden, and its sizes agree.
    pub open spec fn wf(self) -> bool {
        &&& self.removed.tile.window.minimized
        &&& !self.removed.tile.minimize_animation_hidden
        &&& self.sizes_agree()
    }

    /// What enters a workspace when the window is restored.
    pub open spec fn returning(self, clock: Clock) -> RemovedTile<H> {
        RemovedTile {
            tile: self.removed.tile.brought_back(self.floating_center, clock),
            ..self.removed
        }
    }
}

impl<H: Host> LayoutView<H> {
    /// The queue entry for the tile at a place.
    pub open spec fn entry_for(self, slot: Slot<int>, place: Place<int>) -> MinimizedWindow<H> {
        let removed = self.removed(slot, place);
        let floating = place is Floating;
        MinimizedWindow {
            removed: RemovedTile {
                tile: removed.tile.put_away(floating),
                is_floating: floating || removed.tile.restore_to_floating,
                ..removed
            },
            floating_center: removed.tile.floating_center,
            maximized: self.workspace(slot).maximized_at(place),
        }
    }

    /// The layout after the tile at a place was minimized.
    pub open spec fn with_minimized(self, slot: Slot<int>, place: Place<int>) -> Self {
        LayoutView {
            minimized_windows: self.minimized_windows.push(self.entry_for(slot, place)),
            ..self.without(slot, place)
        }
    }

    /// The monitor that a restored window goes to: the one that shows the output, or else the
    /// active one.
    pub open spec fn destination(self, output: Option<OutputId>, monitor: int) -> bool {
        match output {
            Some(output) => self.shows(monitor, output),
            None => self.monitors.len() > 0 && monitor == self.active_monitor_idx,
        }
    }

    /// The entry that is restored: that of the window, or else the last.
    pub open spec fn chosen(self, id: Option<WindowId>, index: int) -> bool {
        match id {
            Some(id) => self.minimized_at(index, id),
            None => self.minimized_windows.len() > 0 && index == self.minimized_windows.len() - 1,
        }
    }

    /// The layout with an entry of the queue back on the active workspace of a monitor, before
    /// its maximization is asked for again.
    pub open spec fn with_returned(self, monitor: int, index: int, activate: ActivateWindow)
        -> Self {
        let rest = LayoutView { minimized_windows: self.minimized_windows.remove(index), ..self };
        rest.with_added(monitor, self.minimized_windows[index].returning(self.clock), activate)
    }

    /// The layout after an entry of the queue was restored to a monitor.
    pub open spec fn with_restored(self, monitor: int, index: int, activate: ActivateWindow)
        -> Self {
        let entry = self.minimized_windows[index];
        let returned = self.with_returned(monitor, index, activate);
        let slot = Slot::OnMonitor {
            monitor,
            workspace: self.monitors[monitor].active_workspace_idx,
        };
        let place = self.monitors[monitor].active_workspace().place_for(
            entry.returning(self.clock),
        );
        let sized = if entry.maximized {
            returned.with_workspace(
                slot,
                returned.workspace(slot).sized(place, Request::Maximized, true),
            )
        } else {
            returned
        };
        LayoutView {
            active_monitor_idx: if activate == ActivateWindow::Yes {
                monitor
            } else {
                self.active_monitor_idx
            },
            ..sized
        }
    }
}

impl<H: Host> Layout<H> {
    pub fn is_minimized(&self, id: &WindowId) -> (res: bool)
        ensures
            res == self@.minimized(*id),
    {
        self.find_minimized(id).is_some()
    }

    /// Finds a window in the queue.
    pub fn find_minimized(&self, id: &WindowId) -> (res: Option<usize>)
        ensures
            match res {
                Some(index) => self@.minimized_at(index as int, *id),
                None => !self@.minimized(*id),
            },
    {
        let mut i: usize = 0;
        while i < self.minimized_windows.len()
            invariant
                i <= self.minimized_windows@.len(),
                forall|j: int|
                    0 <= j < i ==> (
                    #[trigger] self.minimized_windows@[j]).removed.tile.window.id != *id,
            decreases self.minimized_windows@.len() - i,
        {
            if self.minimized_windows[i].id() == *id {
                assert(self@.minimized_at(i as int, *id));
                return Some(i);
            }
            i += 1;
        }
        assert forall|j: int| !self@.minimized_at(j, *id) by {
            if self@.minimized_at(j, *id) {
                assert(self.minimized_windows@[j].removed.tile.window.id != *id);
            }
        }
        None
    }

    /// Removes a live window from ordinary layout membership without destroying it.
    pub fn minimize_window(&mut self, id: &WindowId) -> (res: bool)
        requires
            old(self)@.wf(),
            old(self)@.next_workspace_id < WorkspaceId::MAX,
        ensures
            final(self)@.wf(),
            res == (!old(self)@.minimized(*id) && old(self)@.lays_out(*id)),
            res ==> exists|slot: Slot<int>, place: Place<int>|
                {
                    &&& #[trigger] old(self)@.dropped(*id).holds_at(slot, place, *id)
                    &&& final(self)@ == old(self)@.dropped(*id).with_minimized(slot, place)
                },
            !res ==> final(self)@ == old(self)@,
            !old(self)@.is_moving(*id) && old(self)@.focus() is Some && old(self)@.focus() != Some(
                *id,
            ) ==> final(self)@.focus() == old(self)@.focus(),
    {
        let done = self.put_window_away(id);
        proof {
            let l = old(self)@;
            if done && !l.is_moving(*id) && l.focus() is Some && l.focus() != Some(*id) {
                let (slot, place) = choose|slot: Slot<int>, place: Place<int>|
                    {
                        &&& #[trigger] l.dropped(*id).holds_at(slot, place, *id)
                        &&& self@ == l.dropped(*id).with_minimized(slot, place)
                    };
                law_minimizing_keeps_the_focus_of_others(l, *id, slot, place, l.focus().unwrap());
            }
        }
        done
    }

    fn put_window_away(&mut self, id: &WindowId) -> (res: bool)
        requires
            old(self)@.wf(),
            old(self)@.next_workspace_id < WorkspaceId::MAX,
        ensures
            final(self)@.wf(),
            res == (!old(self)@.minimized(*id) && old(self)@.lays_out(*id)),
            res ==> exists|slot: Slot<int>, place: Place<int>|
                {
                    &&& #[trigger] old(self)@.dropped(*id).holds_at(slot, place, *id)
                    &&& final(self)@ == old(self)@.dropped(*id).with_minimized(slot, place)
                },
            !res ==> final(self)@ == old(self)@,
    {
        if self.is_minimized(id) {
            return false;
        }
        // Finish a move first so that its output membership is known.
        self.interactive_move_end(id);
        proof {
            lemma_dropped_holds(old(self)@, *id);
            lemma_dropped(old(self)@, *id, Key::Minimized);
        }
        let (slot, place) = match self.find_slot(id) {
            Some(found) => found,
            None => {
                return false;
            },
        };
        let ghost dropped = self@;
        let workspace = match &slot {
            Slot::OnMonitor { monitor, workspace } => {
                &self.monitors[*monitor].workspaces[*workspace]
            },
            Slot::Orphan { workspace } => &self.orphans[*workspace],
        };
        let maximized = workspace.is_pending_maximized(&place);
        let currently_floating = match place {
            Place::Floating { .. } => true,
            Place::Tiled { .. } => false,
        };
        let mut removed = self.take_tile(&slot, &place);
        let floating_center = removed.tile.floating_center;
        removed.is_floating = currently_floating || removed.tile.restore_to_floating;
        removed.tile.stop_move_animations();
        removed.tile.alpha_animation = None;
        removed.tile.interactive_move_offset = None;
        removed.tile.view_pos = None;
        removed.tile.minimize_animation_hidden = false;
        removed.tile.window.interactive_resize = None;
        removed.tile.window.activated = false;
        removed.tile.window.active_in_column = false;
        removed.tile.window.floating = currently_floating;
        removed.tile.window.minimized = true;
        removed.tile.window.configure_due = true;
        self.minimized_windows.push(MinimizedWindow { removed, floating_center, maximized });
        proof {
            assert(dropped.holds_at(slot@, place@, *id));
            assert(self@ =~~= dropped.with_minimized(slot@, place@));
            lemma_minimized(old(self)@, *id, slot@, place@);
        }
        true
    }

    /// Restores into an output's current workspace using ordinary insertion rules.
    ///
    /// The destination is resolved before the queue gives up ownership: disconnected outputs and
    /// sessions without outputs leave every minimized window intact.
    pub fn restore_window(
        &mut self,
        id: Option<&WindowId>,
        output: Option<&OutputId>,
        activate: ActivateWindow,
    ) -> (res: Option<WindowId>)
        requires
            old(self)@.wf(),
            old(self)@.next_workspace_id < WorkspaceId::MAX,
        ensures
            final(self)@.wf(),
            match res {
                Some(restored) => exists|monitor: int, index: int|
                    {
                        &&& #[trigger] old(self)@.destination(deref(output), monitor)
                        &&& #[trigger] old(self)@.chosen(deref(id), index)
                        &&& old(self)@.minimized_at(index, restored)
                        &&& final(self)@ == old(self)@.with_restored(monitor, index, activate)
                    },
                None => {
                    &&& final(self)@ == old(self)@
                    &&& (forall|monitor: int|
                        !#[trigger] old(self)@.destination(deref(output), monitor)) || (forall|
                        index: int,
                    | !#[trigger] old(self)@.chosen(deref(id), index))
                },
            },
            res is None <==> {
                ||| old(self)@.monitors.len() == 0
                ||| output matches Some(o) && forall|m: int|
                    0 <= m < old(self)@.monitors.len() ==> (
                    #[trigger] old(self)@.monitors[m]).output.id != *o
                ||| id is None && old(self)@.minimized_windows.len() == 0
                ||| id matches Some(i) && forall|k: int|
                    0 <= k < old(self)@.minimized_windows.len() ==> (
                    #[trigger] old(self)@.minimized_windows[k]).removed.tile.window.id != *i
            },
            id is Some && res is Some ==> res == Some(*id.unwrap()),
            id is None && res is Some ==> res == Some(
                old(self)@.minimized_windows.last().removed.tile.window.id,
            ),
            output is None && res is Some ==> exists|place: Place<int>| #[trigger]
                final(self)@.monitors[old(self)@.active_monitor_idx].workspaces[old(self)@.monitors[old(self)@.active_monitor_idx].active_workspace_idx].holds_at(
                place, res.unwrap()),
            output is Some && res is Some ==> exists|m: int, place: Place<int>|
                0 <= m < old(self)@.monitors.len() && old(self)@.monitors[m].output.id
                    == *output.unwrap() && #[trigger] final(self)@.monitors[m].workspaces[old(self)@.monitors[m].active_workspace_idx].holds_at(
                place, res.unwrap()),
            activate == ActivateWindow::Yes && res is Some ==> final(self)@.focus() == res,
            activate != ActivateWindow::Yes ==> final(self)@.active_monitor_idx
                == old(self)@.active_monitor_idx,
    {
        let res = self.restore_chosen(id, output, activate);
        proof {
            let l = old(self)@;
            lemma_restore_refused(l, deref(id), deref(output));
            if let Some(restored) = res {
                let (monitor, index) = choose|monitor: int, index: int|
                    {
                        &&& #[trigger] l.destination(deref(output), monitor)
                        &&& #[trigger] l.chosen(deref(id), index)
                        &&& l.minimized_at(index, restored)
                        &&& self@ == l.with_restored(monitor, index, activate)
                    };
                let place = law_restored_window(l, monitor, index, activate);
                let w = l.monitors[monitor].active_workspace_idx;
                assert(self@.monitors[monitor].workspaces[w].holds_at(place, restored));
                if activate == ActivateWindow::Yes {
                    law_activated_restore_focuses(l, monitor, index);
                }
            }
        }
        res
    }

    fn restore_chosen(
        &mut self,
        id: Option<&WindowId>,
        output: Option<&OutputId>,
        activate: ActivateWindow,
    ) -> (res: Option<WindowId>)
        requires
            old(self)@.wf(),
            old(self)@.next_workspace_id < WorkspaceId::MAX,
        ensures
            final(self)@.wf(),
            match res {
                Some(restored) => exists|monitor: int, index: int|
                    {
                        &&& #[trigger] old(self)@.destination(deref(output), monitor)
                        &&& #[trigger] old(self)@.chosen(deref(id), index)
                        &&& old(self)@.minimized_at(index, restored)
                        &&& final(self)@ == old(self)@.with_restored(monitor, index, activate)
                    },
                None => {
                    &&& final(self)@ == old(self)@
                    &&& (forall|monitor: int|
                        !#[trigger] old(self)@.destination(deref(output), monitor)) || (forall|
                        index: int,
                    | !#[trigger] old(self)@.chosen(deref(id), index))
                },
            },
    {
        if self.monitors.len() == 0 {
            assert forall|monitor: int|
                !#[trigger] old(self)@.destination(deref(output), monitor) by {}
            return None;
        }
        let monitor: usize = match output {
            Some(output) => match self.find_monitor(output) {
                Some(monitor) => monitor,
                None => {
                    return None;
                },
            },
            None => self.active_monitor_idx,
        };
        assert(old(self)@.destination(deref(output), monitor as int));
        let index: usize = match id {
            Some(id) => match self.find_minimized(id) {
                Some(index) => index,
                None => {
                    return None;
                },
            },
            None => if self.minimized_windows.len() == 0 {
                return None;
            } else {
                self.minimized_windows.len() - 1
            },
        };
        assert(old(self)@.chosen(deref(id), index as int));
        Some(self.restore_entry(monitor, index, activate))
    }

    /// Restores an entry of the queue to a monitor.
    pub fn restore_entry(&mut self, monitor: usize, index: usize, activate: ActivateWindow) -> (res:
        WindowId)
        requires
            old(self)@.wf(),
            old(self)@.next_workspace_id < WorkspaceId::MAX,
            monitor < old(self)@.monitors.len(),
            index < old(self)@.minimized_windows.len(),
        ensures
            final(self)@.wf(),
            old(self)@.minimized_at(index as int, res),
            final(self)@ == old(self)@.with_restored(monitor as int, index as int, activate),
    {
        let maximized = self.minimized_windows[index].maximized;
        let workspace: usize = self.monitors[monitor].active_workspace_idx;
        let restored: WindowId = self.return_entry(monitor, index, activate);
        if maximized {
            let ghost returned = self@;
            assert(returned.monitors[monitor as int].wf()) by {
                lemma_returned_holds(old(self)@, monitor as int, index as int, activate);
            }
            assert(self.monitors@.len() == returned.monitors.len());
            assert(self.monitors@[monitor as int]@ == returned.monitors[monitor as int]);
            assert(self.monitors@[monitor as int].workspaces@.len()
                == returned.monitors[monitor as int].workspaces.len());
            let found = self.monitors[monitor].workspaces[workspace].find_place(&restored);
            assert(found is Some && returned.shaped() && returned.holds_at(
                Slot::OnMonitor { monitor: monitor as int, workspace: workspace as int },
                found.unwrap()@,
                restored,
            ) && found.unwrap()@ == old(self)@.monitors[monitor as int].active_workspace().place_for(
                old(self)@.minimized_windows[index as int].returning(old(self)@.clock),
            )) by {
                lemma_returned(old(self)@, monitor as int, index as int, activate);
                lemma_returned_holds(old(self)@, monitor as int, index as int, activate);
                lemma_returned_place(
                    old(self)@,
                    monitor as int,
                    index as int,
                    activate,
                    found.unwrap()@,
                );
            }
            if let Some(place) = found {
                let slot = Slot::OnMonitor { monitor, workspace };
                self.set_sizing_at(&slot, &place, Request::Maximized, true);
            }
        }
        if activate.map_smart(false) {
            self.active_monitor_idx = monitor;
        }
        assert(self@ == old(self)@.with_restored(monitor as int, index as int, activate));
        proof {
            lemma_restored(old(self)@, monitor as int, index as int, activate);
        }
        restored
    }

    /// Moves an entry of the queue to the active workspace of a monitor.
    fn return_entry(&mut self, monitor: usize, index: usize, activate: ActivateWindow) -> (res:
        WindowId)
        requires
            old(self)@.shaped(),
            old(self)@.next_workspace_id < WorkspaceId::MAX,
            monitor < old(self)@.monitors.len(),
            index < old(self)@.minimized_windows.len(),
        ensures
            old(self)@.minimized_at(index as int, res),
            final(self)@ == old(self)@.with_returned(monitor as int, index as int, activate),
    {
        let MinimizedWindow { mut removed, floating_center, .. } = self.minimized_windows.remove(
            index,
        );
        let restored: WindowId = removed.tile.window.id;
        removed.tile.floating_center = floating_center;
        removed.tile.advance_animations(&self.clock);
        removed.tile.window.minimized = false;
        assert(removed == old(self)@.minimized_windows[index as int].returning(old(self)@.clock));
        assert(self@ == (LayoutView {
            minimized_windows: old(self)@.minimized_windows.remove(index as int),
            ..old(self)@
        }));
        self.put_tile(monitor, removed, activate);
        restored
    }
}

/// An optional reference as a value.
pub open spec fn deref(value: Option<&u64>) -> Option<u64> {
    match value {
        Some(value) => Some(*value),
        None => None,
    }
}

/// When a restore request finds nothing to restore, or nowhere to restore it to.
proof fn lemma_restore_refused<H: Host>(
    l: LayoutView<H>,
    id: Option<WindowId>,
    output: Option<OutputId>,
)
    requires
        l.wf(),
    ensures
        (forall|monitor: int| !#[trigger] l.destination(output, monitor)) <==> {
            ||| l.monitors.len() == 0
            ||| output matches Some(o) && forall|m: int|
                0 <= m < l.monitors.len() ==> (#[trigger] l.monitors[m]).output.id != o
        },
        (forall|index: int| !#[trigger] l.chosen(id, index)) <==> {
            ||| id is None && l.minimized_windows.len() == 0
            ||| id matches Some(i) && forall|k: int|
                0 <= k < l.minimized_windows.len() ==> (
                #[trigger] l.minimized_windows[k]).removed.tile.window.id != i
        },
{
    if forall|monitor: int| !#[trigger] l.destination(output, monitor) {
        assert(!l.destination(output, l.active_monitor_idx));
        if let Some(o) = output {
            assert forall|m: int| 0 <= m < l.monitors.len() implies (
            #[trigger] l.monitors[m]).output.id != o by {
                assert(!l.destination(output, m));
            }
        }
    }
    if forall|index: int| !#[trigger] l.chosen(id, index) {
        assert(!l.chosen(id, l.minimized_windows.len() - 1));
        if let Some(i) = id {
            assert forall|k: int| 0 <= k < l.minimized_windows.len() implies (
            #[trigger] l.minimized_windows[k]).removed.tile.window.id != i by {
                assert(!l.chosen(id, k));
            }
        }
    }
}

/// After the end of its move, a window of the ordinary layout is in a workspace.
pub proof fn lemma_dropped_holds<H: Host>(l: LayoutView<H>, id: WindowId)
    requires
        l.shaped(),
    ensures
        l.lays_out(id) == l.dropped(id).holds(id),
{
    if l.is_moving(id) {
        let key = Key::<H>::Id(id);
        lemma_tiles_split(l, key);
        lemma_tiles_split(l.dropped(id), key);
        lemma_dropped(l, id, key);
        let (slot, place) = lemma_count_has_slot(l.dropped(id), key);
        assert(l.dropped(id).holds_at(slot, place, id));
    }
}

/// Minimizing keeps the layout well-formed and takes nothing away from what it owns.
pub proof fn lemma_minimized<H: Host>(
    l: LayoutView<H>,
    id: WindowId,
    slot: Slot<int>,
    place: Place<int>,
)
    requires
        l.wf(),
        l.dropped(id).holds_at(slot, place, id),
    ensures
        l.dropped(id).with_minimized(slot, place).wf(),
        forall|key: Key<H>|
            !(key is Minimized || key is Concealed) ==> #[trigger] count(
                l.dropped(id).with_minimized(slot, place).tiles(),
                key,
            ) == count(l.tiles(), key),
{
    let dropped = l.dropped(id);
    let after = dropped.with_minimized(slot, place);
    assert forall|key: Key<H>| true implies {
        &&& count(after.ordinary(), key) <= count(l.ordinary(), key)
        &&& !(key is Minimized) ==> #[trigger] count(after.tiles(), key) <= count(l.tiles(), key)
        &&& !(key is Minimized || key is Concealed) ==> count(after.tiles(), key) == count(
            l.tiles(),
            key,
        )
    } by {
        lemma_dropped(l, id, key);
        lemma_without(dropped, slot, place, key);
        lemma_tiles_split(dropped, key);
        lemma_tiles_split(after, key);
        let entry = dropped.entry_for(slot, place);
        assert(after.placed() == dropped.without(slot, place).placed());
        let before = minimized_tiles(dropped.minimized_windows);
        assert(minimized_tiles(after.minimized_windows) =~= before.push(entry.removed.tile));
        assert(before.push(entry.removed.tile).drop_last() =~= before);
    }
    let minimized = Key::<H>::Minimized;
    assert(count(after.tiles(), minimized) >= 0);
    lemma_dropped(l, id, minimized);
    lemma_without(dropped, slot, place, minimized);
    assert forall|i: int| 0 <= i < after.minimized_windows.len() implies (
    #[trigger] after.minimized_windows[i]).wf() by {
        if i < l.minimized_windows.len() {
            assert(l.minimized_windows[i].wf());
        }
    }
    lemma_still_wf(l, after);
}

/// Bringing an entry back to a workspace keeps what the layout owns.
pub proof fn lemma_returned<H: Host>(
    l: LayoutView<H>,
    monitor: int,
    index: int,
    activate: ActivateWindow,
)
    requires
        l.wf(),
        0 <= monitor < l.monitors.len(),
        0 <= index < l.minimized_windows.len(),
    ensures
        l.with_returned(monitor, index, activate).wf(),
        forall|key: Key<H>|
            !(key is Minimized) ==> #[trigger] count(
                l.with_returned(monitor, index, activate).tiles(),
                key,
            ) == count(l.tiles(), key),
{
    let entry = l.minimized_windows[index];
    let removed = entry.returning(l.clock);
    let rest = LayoutView { minimized_windows: l.minimized_windows.remove(index), ..l };
    let after = l.with_returned(monitor, index, activate);
    assert forall|key: Key<H>| true implies {
        &&& count(after.ordinary(), key) == count(l.ordinary(), key) + one(removed.tile, key)
        &&& !(key is Minimized) ==> #[trigger] count(after.tiles(), key) == count(l.tiles(), key)
    } by {
        lemma_added(rest, monitor, removed, activate, key);
        lemma_tiles_split(l, key);
        lemma_tiles_split(after, key);
        assert(rest.placed() == l.placed());
        let before = minimized_tiles(l.minimized_windows);
        lemma_count_remove(before, index, key);
        assert(minimized_tiles(rest.minimized_windows) =~= before.remove(index));
    }
    lemma_added(rest, monitor, removed, activate, Key::Minimized);
    assert(count(after.tiles(), Key::Minimized) >= 0);
    assert forall|i: int| 0 <= i < after.minimized_windows.len() implies (
    #[trigger] after.minimized_windows[i]).wf() by {
        let k = if i < index {
            i
        } else {
            i + 1
        };
        assert(l.minimized_windows[k].wf());
    }
    lemma_still_wf(l, after);
}

/// The restored window is where it was put.
pub proof fn lemma_returned_holds<H: Host>(
    l: LayoutView<H>,
    monitor: int,
    index: int,
    activate: ActivateWindow,
)
    requires
        l.wf(),
        0 <= monitor < l.monitors.len(),
        0 <= index < l.minimized_windows.len(),
    ensures
        l.with_returned(monitor, index, activate).monitors[monitor].active_workspace().holds_at(
            l.monitors[monitor].active_workspace().place_for(
                l.minimized_windows[index].returning(l.clock),
            ),
            l.minimized_windows[index].removed.tile.window.id,
        ),
        l.with_returned(monitor, index, activate).monitors[monitor].active_workspace_idx
            == l.monitors[monitor].active_workspace_idx,
        l.with_returned(monitor, index, activate).monitors[monitor].wf(),
{
    let removed = l.minimized_windows[index].returning(l.clock);
    let mon = l.monitors[monitor];
    let active = mon.active_workspace();
    assert(mon.wf());
    assert(active.wf());
    lemma_monitor_added(
        mon,
        removed,
        activate,
        l.next_workspace_id as WorkspaceId,
        Key::Minimized,
    );
    lemma_added_wf(active, removed, activate.decided(!active.active_is_fullscreen()));
}

/// The restored window is found nowhere but where it was put.
pub proof fn lemma_returned_place<H: Host>(
    l: LayoutView<H>,
    monitor: int,
    index: int,
    activate: ActivateWindow,
    place: Place<int>,
)
    requires
        l.wf(),
        0 <= monitor < l.monitors.len(),
        0 <= index < l.minimized_windows.len(),
        l.with_returned(monitor, index, activate).monitors[monitor].active_workspace().holds_at(
            place,
            l.minimized_windows[index].removed.tile.window.id,
        ),
    ensures
        place == l.monitors[monitor].active_workspace().place_for(
            l.minimized_windows[index].returning(l.clock),
        ),
{
    let entry = l.minimized_windows[index];
    let id = entry.removed.tile.window.id;
    let mon = l.monitors[monitor];
    let returned = l.with_returned(monitor, index, activate);
    let expected = mon.active_workspace().place_for(entry.returning(l.clock));
    lemma_returned(l, monitor, index, activate);
    lemma_returned_holds(l, monitor, index, activate);
    lemma_tiles_split(returned, Key::Id(id));
    assert(count(returned.tiles(), Key::Id(id)) <= 1);
    let slot = Slot::OnMonitor { monitor, workspace: mon.active_workspace_idx };
    lemma_slot_unique(returned, slot, place, slot, expected, Key::Id(id));
}

/// Restoring keeps the layout well-formed and takes nothing away from what it owns.
pub proof fn lemma_restored<H: Host>(
    l: LayoutView<H>,
    monitor: int,
    index: int,
    activate: ActivateWindow,
)
    requires
        l.wf(),
        0 <= monitor < l.monitors.len(),
        0 <= index < l.minimized_windows.len(),
    ensures
        l.with_restored(monitor, index, activate).wf(),
        forall|key: Key<H>|
            !(key is Minimized) ==> #[trigger] count(
                l.with_restored(monitor, index, activate).tiles(),
                key,
            ) == count(l.tiles(), key),
{
    let entry = l.minimized_windows[index];
    let returned = l.with_returned(monitor, index, activate);
    let after = l.with_restored(monitor, index, activate);
    lemma_returned(l, monitor, index, activate);
    assert forall|key: Key<H>| true implies {
        &&& after.shaped()
        &&& count(after.ordinary(), key) == count(returned.ordinary(), key)
        &&& #[trigger] count(after.tiles(), key) == count(returned.tiles(), key)
    } by {
        lemma_maximized_again(l, monitor, index, activate, key);
    }
    assert(count(after.tiles(), Key::Minimized) >= 0);
    lemma_same_ownership(returned, after);
}

/// Asking for maximization again, and moving the focus, keeps what the layout owns.
proof fn lemma_maximized_again<H: Host>(
    l: LayoutView<H>,
    monitor: int,
    index: int,
    activate: ActivateWindow,
    key: Key<H>,
)
    requires
        l.wf(),
        0 <= monitor < l.monitors.len(),
        0 <= index < l.minimized_windows.len(),
    ensures
        l.with_restored(monitor, index, activate).shaped(),
        count(l.with_restored(monitor, index, activate).ordinary(), key) == count(
            l.with_returned(monitor, index, activate).ordinary(),
            key,
        ),
        count(l.with_restored(monitor, index, activate).tiles(), key) == count(
            l.with_returned(monitor, index, activate).tiles(),
            key,
        ),
{
    let entry = l.minimized_windows[index];
    let removed = entry.returning(l.clock);
    let mon = l.monitors[monitor];
    let active = mon.active_workspace();
    let w = mon.active_workspace_idx;
    let place = active.place_for(removed);
    let returned = l.with_returned(monitor, index, activate);
    let after = l.with_restored(monitor, index, activate);
    lemma_returned(l, monitor, index, activate);
    lemma_tiles_split(returned, key);
    lemma_tiles_split(after, key);
    assert(mon.wf());
    assert(active.wf());
    lemma_monitor_added(mon, removed, activate, l.next_workspace_id as WorkspaceId, key);
    lemma_added_wf(active, removed, activate.decided(!active.active_is_fullscreen()));
    let target = returned.monitors[monitor];
    assert(target.wf());
    let ws = target.workspaces[w];
    assert(ws.wf());
    if entry.maximized {
        let value = ws.sized(place, Request::Maximized, true);
        lemma_sized(ws, place, Request::Maximized, true, key);
        lemma_monitor_workspace(target, w, value, key);
        lemma_monitor_changed(returned, after, monitor, target.with_workspace(w, value), key);
    } else {
        assert(after.placed() == returned.placed());
    }
}

} // verus!
