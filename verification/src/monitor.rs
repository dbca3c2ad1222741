//! A monitor: an output and the workspaces on it.

use vstd::prelude::*;

use crate::ownership::{
    count, lemma_count_flat_insert, lemma_count_flat_remove, lemma_count_flat_update, one, Key,
};
use crate::tile::{RemovedTile, Tile};
use crate::types::{ActivateWindow, Host, Output, WorkspaceId};
use crate::workspace::{
    lemma_added_count, lemma_added_wf, lemma_empty, lemma_without_count, lemma_without_wf, Place,
    Workspace, WorkspaceView,
};

verus! {

pub struct Monitor<H: Host> {
    pub output: Output,
    pub workspaces: Vec<Workspace<H>>,
    pub active_workspace_idx: usize,
}

#[verifier::ext_equal]
pub struct MonitorView<H: Host> {
    pub output: Output,
    pub workspaces: Seq<WorkspaceView<H>>,
    pub active_workspace_idx: int,
}

/// The workspaces of a list, as values.
pub open spec fn workspace_views<H: Host>(list: Seq<Workspace<H>>) -> Seq<WorkspaceView<H>> {
    list.map_values(|w: Workspace<H>| w@)
}

impl<H: Host> View for Monitor<H> {
    type V = MonitorView<H>;

    open spec fn view(&self) -> MonitorView<H> {
        MonitorView {
            output: self.output,
            workspaces: workspace_views(self.workspaces@),
            active_workspace_idx: self.active_workspace_idx as int,
        }
    }
}

/// The tiles of a list of workspaces, workspace by workspace.
pub open spec fn workspace_lists<H: Host>(list: Seq<WorkspaceView<H>>) -> Seq<Seq<Tile<H>>> {
    list.map_values(|w: WorkspaceView<H>| w.tiles())
}

impl<H: Host> MonitorView<H> {
    /// There is always one more workspace, without windows, at the bottom.
    pub open spec fn wf(self) -> bool {
        &&& 0 <= self.active_workspace_idx < self.workspaces.len()
        &&& forall|w: int| 0 <= w < self.workspaces.len() ==> (#[trigger] self.workspaces[w]).wf()
        &&& self.workspaces.last().has_no_windows()
        &&& !self.workspaces.last().is_named
    }

    pub open spec fn tiles(self) -> Seq<Tile<H>> {
        workspace_lists(self.workspaces).flatten()
    }

    pub open spec fn active_workspace(self) -> WorkspaceView<H> {
        self.workspaces[self.active_workspace_idx]
    }

    /// A new monitor: the given workspaces, and an empty one below them.
    pub open spec fn of_output(
        output: Output,
        workspaces: Seq<WorkspaceView<H>>,
        fresh: WorkspaceId,
    ) -> Self {
        MonitorView {
            output,
            workspaces: workspaces.push(WorkspaceView::empty(fresh)),
            active_workspace_idx: 0,
        }
    }

    /// The monitor without the tile at a place. A workspace that becomes empty goes too, unless
    /// it is named, active or the one at the bottom.
    pub open spec fn without(self, workspace: int, place: Place<int>) -> Self {
        let left = self.workspaces[workspace].without(place);
        if left.has_no_windows() && !left.is_named && workspace != self.active_workspace_idx
            && workspace != self.workspaces.len() - 1 {
            MonitorView {
                workspaces: self.workspaces.remove(workspace),
                active_workspace_idx: if workspace < self.active_workspace_idx {
                    self.active_workspace_idx - 1
                } else {
                    self.active_workspace_idx
                },
                ..self
            }
        } else {
            MonitorView { workspaces: self.workspaces.update(workspace, left), ..self }
        }
    }

    /// A new tile on the bottom workspace calls for another workspace below it.
    pub open spec fn needs_workspace(self) -> bool {
        self.active_workspace_idx == self.workspaces.len() - 1
    }

    /// The active workspace with a new tile.
    pub open spec fn filled(self, removed: RemovedTile<H>, activate: ActivateWindow)
        -> WorkspaceView<H> {
        let active = self.active_workspace();
        active.with_added(removed, activate.decided(!active.active_is_fullscreen()))
    }

    /// The monitor with a new tile on its active workspace.
    pub open spec fn with_added(
        self,
        removed: RemovedTile<H>,
        activate: ActivateWindow,
        fresh: WorkspaceId,
    ) -> Self {
        let filled = self.workspaces.update(
            self.active_workspace_idx,
            self.filled(removed, activate),
        );
        MonitorView {
            workspaces: if self.needs_workspace() {
                filled.push(WorkspaceView::empty(fresh))
            } else {
                filled
            },
            ..self
        }
    }

    /// The monitor with another value for one of its workspaces.
    pub open spec fn with_workspace(self, workspace: int, value: WorkspaceView<H>) -> Self {
        MonitorView { workspaces: self.workspaces.update(workspace, value), ..self }
    }
}

impl<H: Host> Monitor<H> {
    pub fn of_output(
        output: Output,
        workspaces: Vec<Workspace<H>>,
        fresh: WorkspaceId,
    ) -> (res: Self)
        ensures
            res@ == MonitorView::of_output(output, workspace_views(workspaces@), fresh),
    {
        let mut list = workspaces;
        list.push(Workspace::empty(fresh));
        let res = Monitor { output, workspaces: list, active_workspace_idx: 0 };
        assert(res@ =~~= MonitorView::of_output(output, workspace_views(workspaces@), fresh));
        res
    }

    pub fn remove_tile(&mut self, workspace: usize, place: &Place<usize>) -> (res: RemovedTile<H>)
        requires
            old(self)@.wf(),
            workspace < old(self)@.workspaces.len(),
            old(self)@.workspaces[workspace as int].valid(place@),
        ensures
            res == old(self)@.workspaces[workspace as int].removed(place@),
            final(self)@ == old(self)@.without(workspace as int, place@),
    {
        assert(self@.workspaces[workspace as int].wf());
        let removed = self.workspaces[workspace].remove_tile(place);
        let last: usize = self.workspaces.len() - 1;
        if self.workspaces[workspace].has_no_windows() && !self.workspaces[workspace].is_named
            && workspace != self.active_workspace_idx && workspace != last {
            self.workspaces.remove(workspace);
            if workspace < self.active_workspace_idx {
                self.active_workspace_idx = self.active_workspace_idx - 1;
            }
        }
        assert(self@ =~~= old(self)@.without(workspace as int, place@));
        removed
    }

    /// Adds a tile to the active workspace. Returns whether the workspace id was used.
    pub fn add_tile(
        &mut self,
        removed: RemovedTile<H>,
        activate: ActivateWindow,
        fresh: WorkspaceId,
    ) -> (res: bool)
        requires
            old(self)@.wf(),
        ensures
            res == old(self)@.needs_workspace(),
            final(self)@ == old(self)@.with_added(removed, activate, fresh),
    {
        let w: usize = self.active_workspace_idx;
        assert(self@.workspaces[w as int].wf());
        let smart = !self.workspaces[w].is_active_pending_fullscreen();
        self.workspaces[w].add_tile(removed, activate.map_smart(smart));
        let last: usize = self.workspaces.len() - 1;
        if w == last {
            self.workspaces.push(Workspace::empty(fresh));
        }
        assert(self@ =~~= old(self)@.with_added(removed, activate, fresh));
        w == last
    }
}

pub proof fn lemma_monitor_without<H: Host>(
    mon: MonitorView<H>,
    workspace: int,
    place: Place<int>,
    key: Key<H>,
)
    requires
        mon.wf(),
        0 <= workspace < mon.workspaces.len(),
        mon.workspaces[workspace].valid(place),
    ensures
        mon.without(workspace, place).wf(),
        count(mon.tiles(), key) == count(mon.without(workspace, place).tiles(), key) + one(
            mon.workspaces[workspace].tile(place),
            key,
        ),
{
    let ws = mon.workspaces[workspace];
    let left = ws.without(place);
    let after = mon.without(workspace, place);
    let lists = workspace_lists(mon.workspaces);
    assert(ws.wf());
    lemma_without_wf(ws, place);
    lemma_without_count(ws, place, key);
    assert(workspace != mon.workspaces.len() - 1);
    if left.has_no_windows() && !left.is_named && workspace != mon.active_workspace_idx {
        lemma_count_flat_remove(lists, workspace, key);
        assert(workspace_lists(after.workspaces) =~= lists.remove(workspace));
        assert(left.tiles() =~= Seq::<Tile<H>>::empty()) by {
            assert(crate::workspace::column_lists(left.columns) =~= Seq::<Seq<Tile<H>>>::empty());
        }
        assert forall|w: int| 0 <= w < after.workspaces.len() implies (
        #[trigger] after.workspaces[w]).wf() by {
            if w < workspace {
                assert(mon.workspaces[w].wf());
            } else {
                assert(mon.workspaces[w + 1].wf());
            }
        }
        assert(after.workspaces.last() == mon.workspaces.last());
    } else {
        lemma_count_flat_update(lists, workspace, left.tiles(), key);
        assert(workspace_lists(after.workspaces) =~= lists.update(workspace, left.tiles()));
        assert forall|w: int| 0 <= w < after.workspaces.len() implies (
        #[trigger] after.workspaces[w]).wf() by {
            assert(mon.workspaces[w].wf());
        }
    }
}

/// A workspace other than the one at the bottom may change freely.
pub proof fn lemma_monitor_workspace<H: Host>(
    mon: MonitorView<H>,
    workspace: int,
    value: WorkspaceView<H>,
    key: Key<H>,
)
    requires
        mon.wf(),
        0 <= workspace < mon.workspaces.len(),
        value.wf(),
        workspace == mon.workspaces.len() - 1 ==> value.has_no_windows() && !value.is_named,
    ensures
        mon.with_workspace(workspace, value).wf(),
        count(mon.with_workspace(workspace, value).tiles(), key) + count(
            mon.workspaces[workspace].tiles(),
            key,
        ) == count(mon.tiles(), key) + count(value.tiles(), key),
{
    let after = mon.with_workspace(workspace, value);
    let lists = workspace_lists(mon.workspaces);
    lemma_count_flat_update(lists, workspace, value.tiles(), key);
    assert(workspace_lists(after.workspaces) =~= lists.update(workspace, value.tiles()));
    assert forall|w: int| 0 <= w < after.workspaces.len() implies (
    #[trigger] after.workspaces[w]).wf() by {
        assert(mon.workspaces[w].wf());
    }
}

pub proof fn lemma_monitor_added<H: Host>(
    mon: MonitorView<H>,
    removed: RemovedTile<H>,
    activate: ActivateWindow,
    fresh: WorkspaceId,
    key: Key<H>,
)
    requires
        mon.wf(),
    ensures
        mon.with_added(removed, activate, fresh).wf(),
        mon.with_added(removed, activate, fresh).active_workspace() == mon.filled(
            removed,
            activate,
        ),
        count(mon.with_added(removed, activate, fresh).tiles(), key) == count(mon.tiles(), key)
            + one(removed.tile, key),
{
    let after = mon.with_added(removed, activate, fresh);
    let lists = workspace_lists(mon.workspaces);
    let active = mon.active_workspace();
    let filled = mon.filled(removed, activate);
    let decided = activate.decided(!active.active_is_fullscreen());
    assert(mon.workspaces[mon.active_workspace_idx].wf());
    lemma_added_wf(active, removed, decided);
    lemma_added_count(active, removed, decided, key);
    lemma_count_flat_update(lists, mon.active_workspace_idx, filled.tiles(), key);
    let updated = lists.update(mon.active_workspace_idx, filled.tiles());
    if mon.needs_workspace() {
        lemma_empty(fresh, key);
        lemma_count_flat_insert(
            updated,
            updated.len() as int,
            WorkspaceView::<H>::empty(fresh).tiles(),
            key,
        );
        assert(workspace_lists(after.workspaces) =~= updated.insert(
            updated.len() as int,
            WorkspaceView::<H>::empty(fresh).tiles(),
        ));
    } else {
        assert(workspace_lists(after.workspaces) =~= updated);
    }
    assert forall|w: int| 0 <= w < after.workspaces.len() implies (
    #[trigger] after.workspaces[w]).wf() by {
        if w < mon.workspaces.len() {
            assert(mon.workspaces[w].wf());
        }
    }
}

} // verus!
