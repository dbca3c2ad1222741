//! Windows entering and leaving the workspaces of the layout.

use vstd::prelude::*;

use crate::layout::{lemma_same_ownership, minimized_tiles, monitor_lists, Layout, LayoutView, Slot};
use crate::monitor::{lemma_monitor_added, lemma_monitor_without, workspace_lists, MonitorView};
use crate::ownership::{
    count, fits, lemma_count_add, lemma_count_flat_at, lemma_count_flat_insert,
    lemma_count_flat_remove, lemma_count_flat_unique, lemma_count_flat_update,
    lemma_count_flat_witness, lemma_count_one, one, Key,
};
use crate::sizing::Request;
use crate::tile::{RemovedTile, Tile};
use crate::types::{ActivateWindow, Host, OutputId, WindowId, WorkspaceId};
use crate::workspace::{
    lemma_added_count, lemma_added_wf, lemma_count_has_place, lemma_empty, lemma_place_counts,
    lemma_place_unique, lemma_without_count, lemma_without_wf, Place, Workspace, WorkspaceView,
};

verus! {

impl<H: Host> LayoutView<H> {
    /// The tile at a place together with the column settings that it takes along.
    pub open spec fn removed(self, slot: Slot<int>, place: Place<int>) -> RemovedTile<H> {
        self.workspace(slot).removed(place)
    }

    /// The layout without the tile at a place. Neither an empty column nor an empty workspace
    /// stays behind, but for a workspace that is named, active or at the bottom of its monitor.
    pub open spec fn without(self, slot: Slot<int>, place: Place<int>) -> Self {
        match slot {
            Slot::OnMonitor { monitor, workspace } => LayoutView {
                monitors: self.monitors.update(
                    monitor,
                    self.monitors[monitor].without(workspace, place),
                ),
                ..self
            },
            Slot::Orphan { workspace } => {
                let left = self.orphans[workspace].without(place);
                LayoutView {
                    orphans: if left.has_no_windows() && !left.is_named {
                        self.orphans.remove(workspace)
                    } else {
                        self.orphans.update(workspace, left)
                    },
                    ..self
                }
            },
        }
    }

    /// The layout with a new tile on the active workspace of a monitor.
    pub open spec fn with_added(
        self,
        monitor: int,
        removed: RemovedTile<H>,
        activate: ActivateWindow,
    ) -> Self {
        let target = self.monitors[monitor];
        LayoutView {
            monitors: self.monitors.update(
                monitor,
                target.with_added(removed, activate, self.next_workspace_id as WorkspaceId),
            ),
            next_workspace_id: if target.needs_workspace() {
                self.next_workspace_id + 1
            } else {
                self.next_workspace_id
            },
            ..self
        }
    }

    /// The layout with a new tile while no output is connected: it goes to the first workspace.
    pub open spec fn with_added_orphan(self, removed: RemovedTile<H>) -> Self {
        if self.orphans.len() == 0 {
            let fresh = WorkspaceView::<H>::empty(self.next_workspace_id as WorkspaceId);
            LayoutView {
                orphans: seq![fresh.with_added(removed, true)],
                next_workspace_id: self.next_workspace_id + 1,
                ..self
            }
        } else {
            LayoutView {
                orphans: self.orphans.update(0, self.orphans[0].with_added(removed, true)),
                ..self
            }
        }
    }

    /// The monitor that shows an output, or else the active one.
    pub open spec fn monitor_for(self, output: OutputId) -> int {
        if exists|m: int| self.shows(m, output) {
            choose|m: int| self.shows(m, output)
        } else {
            self.active_monitor_idx
        }
    }

    /// The layout after the pointer let go of its tile.
    pub open spec fn let_go(self) -> Self {
        match self.interactive_move {
            Some(m) => {
                let rest = LayoutView { interactive_move: None, ..self };
                if self.monitors.len() > 0 {
                    let monitor = self.monitor_for(m.output);
                    LayoutView {
                        active_monitor_idx: monitor,
                        ..rest.with_added(monitor, m.removed, ActivateWindow::Yes)
                    }
                } else {
                    rest.with_added_orphan(m.removed)
                }
            },
            None => self,
        }
    }

    /// The layout after the end of a move of this window, if there is one.
    pub open spec fn dropped(self, id: WindowId) -> Self {
        if self.is_moving(id) {
            self.let_go()
        } else {
            self
        }
    }
}

impl<H: Host> Layout<H> {
    /// Finds the workspace that holds a window.
    pub fn find_slot(&self, id: &WindowId) -> (res: Option<(Slot<usize>, Place<usize>)>)
        ensures
            match res {
                Some((slot, place)) => self@.holds_at(slot@, place@, *id),
                None => !self@.holds(*id),
            },
    {
        let mut m: usize = 0;
        while m < self.monitors.len()
            invariant
                m <= self.monitors@.len(),
                forall|i: int, w: int|
                    0 <= i < m && 0 <= w < self.monitors@[i].workspaces@.len()
                        ==> !(#[trigger] self.monitors@[i].workspaces@[w])@.holds(*id),
            decreases self.monitors@.len() - m,
        {
            let mut w: usize = 0;
            while w < self.monitors[m].workspaces.len()
                invariant
                    m < self.monitors@.len(),
                    w <= self.monitors@[m as int].workspaces@.len(),
                    forall|v: int|
                        0 <= v < w ==> !(
                        #[trigger] self.monitors@[m as int].workspaces@[v])@.holds(*id),
                decreases self.monitors@[m as int].workspaces@.len() - w,
            {
                if let Some(place) = self.monitors[m].workspaces[w].find_place(id) {
                    let slot = Slot::OnMonitor { monitor: m, workspace: w };
                    assert(self@.holds_at(slot@, place@, *id));
                    return Some((slot, place));
                }
                w += 1;
            }
            m += 1;
        }
        let mut w: usize = 0;
        while w < self.orphans.len()
            invariant
                w <= self.orphans@.len(),
                forall|v: int| 0 <= v < w ==> !(#[trigger] self.orphans@[v])@.holds(*id),
            decreases self.orphans@.len() - w,
        {
            if let Some(place) = self.orphans[w].find_place(id) {
                let slot = Slot::Orphan { workspace: w };
                assert(self@.holds_at(slot@, place@, *id));
                return Some((slot, place));
            }
            w += 1;
        }
        assert forall|slot: Slot<int>, place: Place<int>| !self@.holds_at(slot, place, *id) by {
            if self@.holds_at(slot, place, *id) {
                assert(self@.workspace(slot).holds(*id));
                match slot {
                    Slot::OnMonitor { monitor, workspace } => {
                        assert(!self.monitors@[monitor].workspaces@[workspace]@.holds(*id));
                    },
                    Slot::Orphan { workspace } => {
                        assert(!self.orphans@[workspace]@.holds(*id));
                    },
                }
            }
        }
        None
    }

    /// Finds the monitor that shows an output.
    pub fn find_monitor(&self, output: &OutputId) -> (res: Option<usize>)
        ensures
            match res {
                Some(m) => self@.shows(m as int, *output),
                None => forall|m: int| !self@.shows(m, *output),
            },
    {
        let mut m: usize = 0;
        while m < self.monitors.len()
            invariant
                m <= self.monitors@.len(),
                forall|i: int| 0 <= i < m ==> (#[trigger] self.monitors@[i]).output.id != *output,
            decreases self.monitors@.len() - m,
        {
            if self.monitors[m].output.id == *output {
                return Some(m);
            }
            m += 1;
        }
        assert forall|i: int| !self@.shows(i, *output) by {
            if self@.shows(i, *output) {
                assert(self.monitors@[i].output.id != *output);
            }
        }
        None
    }

    /// Takes a tile out of its workspace.
    pub(crate) fn take_tile(&mut self, slot: &Slot<usize>, place: &Place<usize>) -> (res: RemovedTile<H>)
        requires
            old(self)@.shaped(),
            old(self)@.occupied(slot@, place@),
        ensures
            res == old(self)@.removed(slot@, place@),
            final(self)@ == old(self)@.without(slot@, place@),
    {
        match slot {
            Slot::OnMonitor { monitor, workspace } => {
                assert(self@.monitors[*monitor as int].wf());
                let removed = self.monitors[*monitor].remove_tile(*workspace, place);
                assert(self@ =~~= old(self)@.without(slot@, place@));
                removed
            },
            Slot::Orphan { workspace } => {
                let w: usize = *workspace;
                assert(self@.orphans[w as int].wf());
                let removed = self.orphans[w].remove_tile(place);
                if self.orphans[w].has_no_windows() && !self.orphans[w].is_named {
                    self.orphans.remove(w);
                }
                assert(self@ =~~= old(self)@.without(slot@, place@));
                removed
            },
        }
    }

    /// Puts a tile on the active workspace of a monitor.
    pub(crate) fn put_tile(&mut self, monitor: usize, removed: RemovedTile<H>, activate: ActivateWindow)
        requires
            old(self)@.shaped(),
            monitor < old(self)@.monitors.len(),
            old(self)@.next_workspace_id < WorkspaceId::MAX,
        ensures
            final(self)@ == old(self)@.with_added(monitor as int, removed, activate),
    {
        let fresh: WorkspaceId = self.next_workspace_id;
        assert(self@.monitors[monitor as int].wf());
        if self.monitors[monitor].add_tile(removed, activate, fresh) {
            self.next_workspace_id = fresh + 1;
        }
        assert(self@ =~~= old(self)@.with_added(monitor as int, removed, activate));
    }

    /// Puts a tile on the first workspace while no output is connected.
    pub(crate) fn put_orphan(&mut self, removed: RemovedTile<H>)
        requires
            old(self)@.shaped(),
            old(self)@.next_workspace_id < WorkspaceId::MAX,
        ensures
            final(self)@ == old(self)@.with_added_orphan(removed),
    {
        if self.orphans.len() == 0 {
            let fresh: WorkspaceId = self.next_workspace_id;
            let mut workspace: Workspace<H> = Workspace::empty(fresh);
            proof {
                lemma_empty::<H>(fresh, Key::Minimized);
            }
            workspace.add_tile(removed, true);
            self.orphans.push(workspace);
            self.next_workspace_id = fresh + 1;
        } else {
            assert(self@.orphans[0].wf());
            self.orphans[0].add_tile(removed, true);
        }
        assert(self@ =~~= old(self)@.with_added_orphan(removed));
    }

    /// Makes or withdraws a sizing request for the tile at a place.
    pub(crate) fn set_sizing_at(
        &mut self,
        slot: &Slot<usize>,
        place: &Place<usize>,
        request: Request,
        on: bool,
    )
        requires
            old(self)@.shaped(),
            old(self)@.occupied(slot@, place@),
        ensures
            final(self)@ == old(self)@.with_workspace(
                slot@,
                old(self)@.workspace(slot@).sized(place@, request, on),
            ),
    {
        let ghost after = self@.with_workspace(
            slot@,
            self@.workspace(slot@).sized(place@, request, on),
        );
        match slot {
            Slot::OnMonitor { monitor, workspace } => {
                assert(self@.monitors[*monitor as int].wf());
                assert(self@.monitors[*monitor as int].workspaces[*workspace as int].wf());
                self.monitors[*monitor].workspaces[*workspace].set_sizing(place, request, on);
                assert(self@ =~~= after);
            },
            Slot::Orphan { workspace } => {
                assert(self@.orphans[*workspace as int].wf());
                self.orphans[*workspace].set_sizing(place, request, on);
                assert(self@ =~~= after);
            },
        }
    }

    /// Ends an interactive move of this window. The tile lands on the output under the pointer.
    pub fn interactive_move_end(&mut self, id: &WindowId)
        requires
            old(self)@.shaped(),
            old(self)@.next_workspace_id < WorkspaceId::MAX,
        ensures
            final(self)@ == old(self)@.dropped(*id),
            old(self)@.wf() ==> final(self)@.wf(),
    {
        proof {
            if old(self)@.wf() {
                lemma_dropped_wf(old(self)@, *id);
            }
        }
        let ours = match &self.interactive_move {
            Some(m) => m.removed.tile.window.id == *id,
            None => false,
        };
        if !ours {
            return;
        }
        if let Some(m) = self.interactive_move.take() {
            let ghost rest = LayoutView { interactive_move: None, ..old(self)@ };
            assert(self@ =~~= rest);
            if self.monitors.len() > 0 {
                let monitor: usize = match self.find_monitor(&m.output) {
                    Some(monitor) => monitor,
                    None => self.active_monitor_idx,
                };
                proof {
                    assert(self@.monitors == old(self)@.monitors);
                    assert(self@.shows(monitor as int, m.output) == old(self)@.shows(
                        monitor as int,
                        m.output,
                    ));
                    assert forall|k: int| #[trigger]
                        old(self)@.shows(k, m.output) == self@.shows(k, m.output) by {}
                    lemma_monitor_for(old(self)@, m.output, monitor as int);
                }
                self.put_tile(monitor, m.removed, ActivateWindow::Yes);
                self.active_monitor_idx = monitor;
            } else {
                self.put_orphan(m.removed);
            }
            assert(self@ =~~= old(self)@.dropped(*id));
        }
    }
}

/// The monitor that shows an output is the one that is meant.
pub proof fn lemma_monitor_for<H: Host>(l: LayoutView<H>, output: OutputId, monitor: int)
    requires
        l.shaped(),
        l.shows(monitor, output) || (monitor == l.active_monitor_idx && forall|m: int|
            !l.shows(m, output)),
    ensures
        l.monitor_for(output) == monitor,
{
    if l.shows(monitor, output) {
        let other = choose|m: int| l.shows(m, output);
        assert(l.shows(other, output));
        if other < monitor {
            assert(l.monitors[other].output.id != l.monitors[monitor].output.id);
        } else if monitor < other {
            assert(l.monitors[monitor].output.id != l.monitors[other].output.id);
        }
    }
}

/// Counting goes over the parts of the layout.
pub proof fn lemma_tiles_split<H: Host>(l: LayoutView<H>, key: Key<H>)
    ensures
        count(l.ordinary(), key) == count(l.moving(), key) + count(l.placed(), key),
        count(l.tiles(), key) == count(l.moving(), key) + count(l.placed(), key) + count(
            minimized_tiles(l.minimized_windows),
            key,
        ),
        l.interactive_move is None ==> count(l.moving(), key) == 0,
        l.interactive_move is Some ==> count(l.moving(), key) == one(
            l.interactive_move.unwrap().removed.tile,
            key,
        ),
{
    lemma_count_add(l.moving(), l.placed(), key);
    lemma_count_add(l.ordinary(), minimized_tiles(l.minimized_windows), key);
    if let Some(m) = l.interactive_move {
        lemma_count_one(m.removed.tile, key);
    }
}

/// How the count changes when one monitor does.
pub proof fn lemma_monitor_changed<H: Host>(
    l: LayoutView<H>,
    after: LayoutView<H>,
    monitor: int,
    value: MonitorView<H>,
    key: Key<H>,
)
    requires
        l.shaped(),
        0 <= monitor < l.monitors.len(),
        value.wf(),
        value.output == l.monitors[monitor].output,
        after.monitors == l.monitors.update(monitor, value),
        after.orphans == l.orphans,
        0 <= after.active_monitor_idx < l.monitors.len(),
    ensures
        after.shaped(),
        count(after.placed(), key) + count(l.monitors[monitor].tiles(), key) == count(
            l.placed(),
            key,
        ) + count(value.tiles(), key),
{
    let lists = monitor_lists(l.monitors);
    lemma_count_flat_update(lists, monitor, value.tiles(), key);
    assert(monitor_lists(after.monitors) =~= lists.update(monitor, value.tiles()));
    lemma_count_add(lists.flatten(), workspace_lists(l.orphans).flatten(), key);
    lemma_count_add(
        monitor_lists(after.monitors).flatten(),
        workspace_lists(after.orphans).flatten(),
        key,
    );
    assert forall|m: int| 0 <= m < after.monitors.len() implies (
    #[trigger] after.monitors[m]).wf() by {
        assert(l.monitors[m].wf());
    }
    assert forall|m: int, n: int| 0 <= m < n < after.monitors.len() implies (
    #[trigger] after.monitors[m]).output.id != (#[trigger] after.monitors[n]).output.id by {
        assert(l.monitors[m].output.id != l.monitors[n].output.id);
    }
}

/// How the count changes when one of the workspaces without an output does.
pub proof fn lemma_orphan_changed<H: Host>(
    l: LayoutView<H>,
    after: LayoutView<H>,
    workspace: int,
    value: WorkspaceView<H>,
    key: Key<H>,
)
    requires
        l.shaped(),
        0 <= workspace < l.orphans.len(),
        value.wf(),
        after.monitors == l.monitors,
        after.orphans == l.orphans.update(workspace, value),
        after.active_monitor_idx == l.active_monitor_idx,
    ensures
        after.shaped(),
        count(after.placed(), key) + count(l.orphans[workspace].tiles(), key) == count(
            l.placed(),
            key,
        ) + count(value.tiles(), key),
{
    let lists = workspace_lists(l.orphans);
    lemma_count_flat_update(lists, workspace, value.tiles(), key);
    assert(workspace_lists(after.orphans) =~= lists.update(workspace, value.tiles()));
    lemma_count_add(monitor_lists(l.monitors).flatten(), lists.flatten(), key);
    lemma_count_add(
        monitor_lists(after.monitors).flatten(),
        workspace_lists(after.orphans).flatten(),
        key,
    );
    assert forall|w: int| 0 <= w < after.orphans.len() implies (
    #[trigger] after.orphans[w]).wf() by {
        assert(l.orphans[w].wf());
    }
}

/// A tile that leaves its workspace is missing there, and no other is.
pub proof fn lemma_without<H: Host>(
    l: LayoutView<H>,
    slot: Slot<int>,
    place: Place<int>,
    key: Key<H>,
)
    requires
        l.shaped(),
        l.occupied(slot, place),
    ensures
        l.without(slot, place).shaped(),
        count(l.placed(), key) == count(l.without(slot, place).placed(), key) + one(
            l.workspace(slot).tile(place),
            key,
        ),
{
    let after = l.without(slot, place);
    match slot {
        Slot::OnMonitor { monitor, workspace } => {
            let mon = l.monitors[monitor];
            assert(mon.wf());
            lemma_monitor_without(mon, workspace, place, key);
            lemma_monitor_changed(l, after, monitor, mon.without(workspace, place), key);
        },
        Slot::Orphan { workspace } => {
            let ws = l.orphans[workspace];
            let left = ws.without(place);
            assert(ws.wf());
            lemma_without_wf(ws, place);
            lemma_without_count(ws, place, key);
            let kept = LayoutView { orphans: l.orphans.update(workspace, left), ..l };
            lemma_orphan_changed(l, kept, workspace, left, key);
            if left.has_no_windows() && !left.is_named {
                let lists = workspace_lists(kept.orphans);
                lemma_count_flat_remove(lists, workspace, key);
                assert(workspace_lists(after.orphans) =~= lists.remove(workspace));
                assert(left.tiles() =~= Seq::<Tile<H>>::empty()) by {
                    assert(crate::workspace::column_lists(left.columns) =~= Seq::<
                        Seq<Tile<H>>,
                    >::empty());
                }
                lemma_count_add(monitor_lists(l.monitors).flatten(), lists.flatten(), key);
                lemma_count_add(
                    monitor_lists(l.monitors).flatten(),
                    workspace_lists(after.orphans).flatten(),
                    key,
                );
                assert forall|w: int| 0 <= w < after.orphans.len() implies (
                #[trigger] after.orphans[w]).wf() by {
                    if w < workspace {
                        assert(l.orphans[w].wf());
                    } else {
                        assert(l.orphans[w + 1].wf());
                    }
                }
            }
        },
    }
}

/// A tile that enters a monitor is there, and no other is.
pub proof fn lemma_added<H: Host>(
    l: LayoutView<H>,
    monitor: int,
    removed: RemovedTile<H>,
    activate: ActivateWindow,
    key: Key<H>,
)
    requires
        l.shaped(),
        0 <= monitor < l.monitors.len(),
    ensures
        l.with_added(monitor, removed, activate).shaped(),
        count(l.with_added(monitor, removed, activate).placed(), key) == count(l.placed(), key)
            + one(removed.tile, key),
{
    let mon = l.monitors[monitor];
    let fresh = l.next_workspace_id as WorkspaceId;
    assert(mon.wf());
    lemma_monitor_added(mon, removed, activate, fresh, key);
    lemma_monitor_changed(
        l,
        l.with_added(monitor, removed, activate),
        monitor,
        mon.with_added(removed, activate, fresh),
        key,
    );
}

pub proof fn lemma_added_orphan<H: Host>(l: LayoutView<H>, removed: RemovedTile<H>, key: Key<H>)
    requires
        l.shaped(),
        l.monitors.len() == 0,
    ensures
        l.with_added_orphan(removed).shaped(),
        count(l.with_added_orphan(removed).placed(), key) == count(l.placed(), key) + one(
            removed.tile,
            key,
        ),
{
    let after = l.with_added_orphan(removed);
    if l.orphans.len() == 0 {
        let fresh = WorkspaceView::<H>::empty(l.next_workspace_id as WorkspaceId);
        lemma_empty(l.next_workspace_id as WorkspaceId, key);
        let lists = workspace_lists(l.orphans);
        let filled = fresh.with_added(removed, true);
        lemma_count_flat_insert(lists, 0, filled.tiles(), key);
        assert(workspace_lists(after.orphans) =~= lists.insert(0, filled.tiles()));
        lemma_added_wf(fresh, removed, true);
        lemma_added_count(fresh, removed, true, key);
        lemma_count_add(monitor_lists(l.monitors).flatten(), lists.flatten(), key);
        lemma_count_add(
            monitor_lists(l.monitors).flatten(),
            workspace_lists(after.orphans).flatten(),
            key,
        );
    } else {
        let ws = l.orphans[0];
        assert(ws.wf());
        lemma_added_wf(ws, removed, true);
        lemma_added_count(ws, removed, true, key);
        lemma_orphan_changed(l, after, 0, ws.with_added(removed, true), key);
    }
}

/// The end of a move changes where the tile is, and nothing of what the layout owns.
pub proof fn lemma_dropped<H: Host>(l: LayoutView<H>, id: WindowId, key: Key<H>)
    requires
        l.shaped(),
    ensures
        l.dropped(id).shaped(),
        !l.dropped(id).is_moving(id),
        l.dropped(id).minimized_windows == l.minimized_windows,
        l.dropped(id).minimize_animations == l.minimize_animations,
        l.dropped(id).minimize_targets == l.minimize_targets,
        count(l.dropped(id).ordinary(), key) == count(l.ordinary(), key),
        count(l.dropped(id).tiles(), key) == count(l.tiles(), key),
{
    let after = l.dropped(id);
    lemma_tiles_split(l, key);
    lemma_tiles_split(after, key);
    if l.is_moving(id) {
        let m = l.interactive_move.unwrap();
        let rest = LayoutView { interactive_move: None, ..l };
        assert(rest.placed() == l.placed());
        if l.monitors.len() > 0 {
            let monitor = l.monitor_for(m.output);
            assert(0 <= monitor < l.monitors.len()) by {
                if exists|k: int| l.shows(k, m.output) {
                    assert(l.shows(monitor, m.output));
                }
            }
            lemma_added(rest, monitor, m.removed, ActivateWindow::Yes, key);
            assert(after.placed() == rest.with_added(
                monitor,
                m.removed,
                ActivateWindow::Yes,
            ).placed());
        } else {
            lemma_added_orphan(rest, m.removed, key);
        }
    }
}

pub proof fn lemma_dropped_wf<H: Host>(l: LayoutView<H>, id: WindowId)
    requires
        l.wf(),
    ensures
        l.dropped(id).wf(),
{
    let after = l.dropped(id);
    lemma_dropped(l, id, Key::Minimized);
    assert forall|key: Key<H>| #[trigger] count(after.tiles(), key) == count(l.tiles(), key) by {
        lemma_dropped(l, id, key);
    }
    lemma_same_ownership(l, after);
}

/// A tile found in a workspace counts.
pub proof fn lemma_occupied_counts<H: Host>(
    l: LayoutView<H>,
    slot: Slot<int>,
    place: Place<int>,
    key: Key<H>,
)
    requires
        l.shaped(),
        l.occupied(slot, place),
        fits(key, l.workspace(slot).tile(place)),
    ensures
        count(l.placed(), key) >= 1,
        count(l.tiles(), key) >= 1,
{
    lemma_without(l, slot, place, key);
    lemma_tiles_split(l, key);
}

/// A tile that counts is found in a workspace.
pub proof fn lemma_count_has_slot<H: Host>(l: LayoutView<H>, key: Key<H>) -> (res: (
    Slot<int>,
    Place<int>,
))
    requires
        count(l.placed(), key) >= 1,
    ensures
        l.occupied(res.0, res.1),
        fits(key, l.workspace(res.0).tile(res.1)),
{
    let lists = monitor_lists(l.monitors);
    let rest = workspace_lists(l.orphans);
    lemma_count_add(lists.flatten(), rest.flatten(), key);
    if count(rest.flatten(), key) >= 1 {
        let workspace = lemma_count_flat_witness(rest, key);
        let place = lemma_count_has_place(l.orphans[workspace], key);
        (Slot::Orphan { workspace }, place)
    } else {
        let monitor = lemma_count_flat_witness(lists, key);
        let inner = workspace_lists(l.monitors[monitor].workspaces);
        let workspace = lemma_count_flat_witness(inner, key);
        let place = lemma_count_has_place(l.monitors[monitor].workspaces[workspace], key);
        (Slot::OnMonitor { monitor, workspace }, place)
    }
}

/// Where at most one tile fits, there is only one place for it.
pub proof fn lemma_slot_unique<H: Host>(
    l: LayoutView<H>,
    a: Slot<int>,
    p: Place<int>,
    b: Slot<int>,
    q: Place<int>,
    key: Key<H>,
)
    requires
        l.occupied(a, p),
        l.occupied(b, q),
        fits(key, l.workspace(a).tile(p)),
        fits(key, l.workspace(b).tile(q)),
        count(l.placed(), key) <= 1,
    ensures
        a == b,
        p == q,
{
    let lists = monitor_lists(l.monitors);
    let rest = workspace_lists(l.orphans);
    lemma_count_add(lists.flatten(), rest.flatten(), key);
    lemma_slot_counts(l, a, p, key);
    lemma_slot_counts(l, b, q, key);
    match (a, b) {
        (
            Slot::OnMonitor { monitor: m, workspace: v },
            Slot::OnMonitor { monitor: n, workspace: w },
        ) => {
            lemma_count_flat_unique(lists, m, n, key);
            lemma_count_flat_at(lists, m, key);
            let inner = workspace_lists(l.monitors[m].workspaces);
            lemma_place_counts(l.workspace(a), p, key);
            lemma_place_counts(l.workspace(b), q, key);
            lemma_count_flat_unique(inner, v, w, key);
            lemma_count_flat_at(inner, v, key);
            lemma_place_unique(l.workspace(a), p, q, key);
        },
        (Slot::Orphan { workspace: v }, Slot::Orphan { workspace: w }) => {
            lemma_place_counts(l.workspace(a), p, key);
            lemma_place_counts(l.workspace(b), q, key);
            lemma_count_flat_unique(rest, v, w, key);
            lemma_count_flat_at(rest, v, key);
            lemma_place_unique(l.workspace(a), p, q, key);
        },
        _ => {},
    }
}

/// A tile counts in the list of its monitor, or in that of the workspaces without an output.
proof fn lemma_slot_counts<H: Host>(
    l: LayoutView<H>,
    slot: Slot<int>,
    place: Place<int>,
    key: Key<H>,
)
    requires
        l.occupied(slot, place),
        fits(key, l.workspace(slot).tile(place)),
    ensures
        match slot {
            Slot::OnMonitor { monitor, workspace } => {
                &&& count(l.monitors[monitor].tiles(), key) >= 1
                &&& count(monitor_lists(l.monitors).flatten(), key) >= 1
            },
            Slot::Orphan { workspace } => count(workspace_lists(l.orphans).flatten(), key) >= 1,
        },
{
    lemma_place_counts(l.workspace(slot), place, key);
    match slot {
        Slot::OnMonitor { monitor, workspace } => {
            lemma_count_flat_at(workspace_lists(l.monitors[monitor].workspaces), workspace, key);
            lemma_count_flat_at(monitor_lists(l.monitors), monitor, key);
        },
        Slot::Orphan { workspace } => {
            lemma_count_flat_at(workspace_lists(l.orphans), workspace, key);
        },
    }
}

} // verus!
