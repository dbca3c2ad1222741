//! The layout: every managed window is owned here, by a workspace, by an interactive move or by
//! the queue of minimized windows.

use vstd::prelude::*;

use crate::minimize_animation::MinimizeAnimation;
use crate::minimized::MinimizedWindow;
use crate::monitor::{workspace_lists, workspace_views, Monitor, MonitorView};
use crate::ownership::{count, Key};
use crate::targets::TargetHint;
use crate::tile::{RemovedTile, Tile};
use crate::types::{Clock, Host, Options, OutputId, WindowId, WorkspaceId};
use crate::workspace::{Place, Workspace, WorkspaceView};

verus! {

/// A tile that the pointer holds.
pub struct InteractiveMove<H: Host> {
    pub removed: RemovedTile<H>,
    /// The output under the pointer.
    pub output: OutputId,
}

pub struct Layout<H: Host> {
    pub monitors: Vec<Monitor<H>>,
    pub active_monitor_idx: usize,
    /// The workspaces while no output is connected.
    pub orphans: Vec<Workspace<H>>,
    pub interactive_move: Option<InteractiveMove<H>>,
    /// The most recently minimized window is the last.
    pub minimized_windows: Vec<MinimizedWindow<H>>,
    pub minimize_animations: Vec<MinimizeAnimation<H>>,
    /// The most recently published hint is the last.
    pub minimize_targets: Vec<TargetHint<H>>,
    pub overview_open: bool,
    pub clock: Clock,
    pub options: Options,
    pub next_workspace_id: WorkspaceId,
}

#[verifier::ext_equal]
pub struct LayoutView<H: Host> {
    pub monitors: Seq<MonitorView<H>>,
    pub active_monitor_idx: int,
    pub orphans: Seq<WorkspaceView<H>>,
    pub interactive_move: Option<InteractiveMove<H>>,
    pub minimized_windows: Seq<MinimizedWindow<H>>,
    pub minimize_animations: Seq<MinimizeAnimation<H>>,
    pub minimize_targets: Seq<TargetHint<H>>,
    pub overview_open: bool,
    pub clock: Clock,
    pub options: Options,
    pub next_workspace_id: int,
}

impl<H: Host> View for Layout<H> {
    type V = LayoutView<H>;

    open spec fn view(&self) -> LayoutView<H> {
        LayoutView {
            monitors: self.monitors@.map_values(|m: Monitor<H>| m@),
            active_monitor_idx: self.active_monitor_idx as int,
            orphans: workspace_views(self.orphans@),
            interactive_move: self.interactive_move,
            minimized_windows: self.minimized_windows@,
            minimize_animations: self.minimize_animations@,
            minimize_targets: self.minimize_targets@,
            overview_open: self.overview_open,
            clock: self.clock,
            options: self.options,
            next_workspace_id: self.next_workspace_id as int,
        }
    }
}

/// The position of a workspace.
#[derive(Copy)]
pub enum Slot<I> {
    OnMonitor { monitor: I, workspace: I },
    Orphan { workspace: I },
}

impl<I: Copy> Clone for Slot<I> {
    fn clone(&self) -> (res: Self)
        ensures
            res == *self,
    {
        *self
    }
}

impl View for Slot<usize> {
    type V = Slot<int>;

    open spec fn view(&self) -> Slot<int> {
        match *self {
            Slot::OnMonitor { monitor, workspace } => Slot::OnMonitor {
                monitor: monitor as int,
                workspace: workspace as int,
            },
            Slot::Orphan { workspace } => Slot::Orphan { workspace: workspace as int },
        }
    }
}

/// The tiles of a list of monitors, monitor by monitor.
pub open spec fn monitor_lists<H: Host>(list: Seq<MonitorView<H>>) -> Seq<Seq<Tile<H>>> {
    list.map_values(|m: MonitorView<H>| m.tiles())
}

/// The tiles of the minimized windows.
pub open spec fn minimized_tiles<H: Host>(list: Seq<MinimizedWindow<H>>) -> Seq<Tile<H>> {
    list.map_values(|entry: MinimizedWindow<H>| entry.removed.tile)
}

impl<H: Host> LayoutView<H> {
    /// The tile that the pointer holds.
    pub open spec fn moving(self) -> Seq<Tile<H>> {
        match self.interactive_move {
            Some(m) => seq![m.removed.tile],
            None => Seq::empty(),
        }
    }

    /// The tiles of all workspaces.
    pub open spec fn placed(self) -> Seq<Tile<H>> {
        monitor_lists(self.monitors).flatten() + workspace_lists(self.orphans).flatten()
    }

    /// The tiles that take part in the ordinary layout.
    pub open spec fn ordinary(self) -> Seq<Tile<H>> {
        self.moving() + self.placed()
    }

    /// Every tile that the layout owns.
    pub open spec fn tiles(self) -> Seq<Tile<H>> {
        self.ordinary() + minimized_tiles(self.minimized_windows)
    }

    /// A restore transition of this window is running.
    pub open spec fn is_restoring(self, id: WindowId) -> bool {
        exists|i: int|
            0 <= i < self.minimize_animations.len() && (
            #[trigger] self.minimize_animations[i]).id == id
                && self.minimize_animations[i].restoring
    }

    /// Monitors and workspaces are as they should be, whatever windows they hold.
    pub open spec fn shaped(self) -> bool {
        &&& forall|m: int| 0 <= m < self.monitors.len() ==> (#[trigger] self.monitors[m]).wf()
        &&& forall|w: int| 0 <= w < self.orphans.len() ==> (#[trigger] self.orphans[w]).wf()
        &&& if self.monitors.len() > 0 {
            0 <= self.active_monitor_idx < self.monitors.len() && self.orphans.len() == 0
        } else {
            self.active_monitor_idx == 0
        }
        &&& forall|m: int, n: int|
            0 <= m < n < self.monitors.len() ==> (#[trigger] self.monitors[m]).output.id != (
            #[trigger] self.monitors[n]).output.id
    }

    /// Every window is owned once, and in the ordinary layout none is marked as minimized.
    pub open spec fn owns_once(self) -> bool {
        &&& forall|id: WindowId| #[trigger] count(self.tiles(), Key::Id(id)) <= 1
        &&& count(self.ordinary(), Key::Minimized) == 0
    }

    /// The minimized windows are as they should be.
    pub open spec fn queue_wf(self) -> bool {
        forall|i: int|
            0 <= i < self.minimized_windows.len() ==> (#[trigger] self.minimized_windows[i]).wf()
    }

    /// Every window has at most one transition, and a live tile is hidden only while its restore
    /// transition runs. The pointer holds no hidden tile.
    pub open spec fn transitions_wf(self) -> bool {
        &&& forall|i: int, j: int|
            0 <= i < j < self.minimize_animations.len() ==> (
            #[trigger] self.minimize_animations[i]).id != (
            #[trigger] self.minimize_animations[j]).id
        &&& forall|id: WindowId| #[trigger]
            count(self.tiles(), Key::Concealed(id)) > 0 ==> self.is_restoring(id)
        &&& self.interactive_move matches Some(m) ==> !m.removed.tile.minimize_animation_hidden
    }

    pub open spec fn wf(self) -> bool {
        self.shaped() && self.owns_once() && self.queue_wf() && self.transitions_wf()
    }

    pub open spec fn has_slot(self, slot: Slot<int>) -> bool {
        match slot {
            Slot::OnMonitor { monitor, workspace } => {
                &&& 0 <= monitor < self.monitors.len()
                &&& 0 <= workspace < self.monitors[monitor].workspaces.len()
            },
            Slot::Orphan { workspace } => 0 <= workspace < self.orphans.len(),
        }
    }

    pub open spec fn workspace(self, slot: Slot<int>) -> WorkspaceView<H> {
        match slot {
            Slot::OnMonitor { monitor, workspace } => self.monitors[monitor].workspaces[workspace],
            Slot::Orphan { workspace } => self.orphans[workspace],
        }
    }

    pub open spec fn with_workspace(self, slot: Slot<int>, value: WorkspaceView<H>) -> Self {
        match slot {
            Slot::OnMonitor { monitor, workspace } => LayoutView {
                monitors: self.monitors.update(
                    monitor,
                    self.monitors[monitor].with_workspace(workspace, value),
                ),
                ..self
            },
            Slot::Orphan { workspace } => LayoutView {
                orphans: self.orphans.update(workspace, value),
                ..self
            },
        }
    }

    /// There is a tile at this place.
    pub open spec fn occupied(self, slot: Slot<int>, place: Place<int>) -> bool {
        self.has_slot(slot) && self.workspace(slot).valid(place)
    }

    /// The window sits at this place.
    pub open spec fn holds_at(self, slot: Slot<int>, place: Place<int>, id: WindowId) -> bool {
        self.has_slot(slot) && self.workspace(slot).holds_at(place, id)
    }

    /// The window is in a workspace.
    pub open spec fn holds(self, id: WindowId) -> bool {
        exists|slot: Slot<int>, place: Place<int>| self.holds_at(slot, place, id)
    }

    /// The pointer holds the window.
    pub open spec fn is_moving(self, id: WindowId) -> bool {
        self.interactive_move matches Some(m) && m.removed.tile.window.id == id
    }

    /// The window takes part in the ordinary layout.
    pub open spec fn lays_out(self, id: WindowId) -> bool {
        self.is_moving(id) || self.holds(id)
    }

    /// Position of a window in the queue of minimized windows.
    pub open spec fn minimized_at(self, index: int, id: WindowId) -> bool {
        &&& 0 <= index < self.minimized_windows.len()
        &&& self.minimized_windows[index].removed.tile.window.id == id
    }

    pub open spec fn minimized(self, id: WindowId) -> bool {
        exists|index: int| self.minimized_at(index, id)
    }

    /// Position of the monitor that shows an output.
    pub open spec fn shows(self, monitor: int, output: OutputId) -> bool {
        0 <= monitor < self.monitors.len() && self.monitors[monitor].output.id == output
    }

    /// The focused window: the one of the active workspace of the active monitor.
    pub open spec fn focus(self) -> Option<WindowId> {
        if self.monitors.len() == 0 {
            None
        } else {
            self.monitors[self.active_monitor_idx].active_workspace().focus()
        }
    }
}

/// A layout that owns every window once, hides no window that was not hidden before and leaves the
/// transitions alone is as well-formed as the one before.
pub proof fn lemma_still_wf<H: Host>(l: LayoutView<H>, after: LayoutView<H>)
    requires
        l.wf(),
        after.shaped(),
        after.minimize_animations == l.minimize_animations,
        count(after.ordinary(), Key::Minimized) == 0,
        after.queue_wf(),
        after.interactive_move matches Some(m) ==> !m.removed.tile.minimize_animation_hidden,
        forall|id: WindowId| #[trigger] count(after.tiles(), Key::Id(id)) <= 1,
        forall|id: WindowId| #[trigger]
            count(after.tiles(), Key::Concealed(id)) <= count(l.tiles(), Key::Concealed(id)),
    ensures
        after.wf(),
{
    assert forall|id: WindowId| #[trigger]
        count(after.tiles(), Key::Concealed(id)) > 0 implies after.is_restoring(id) by {
        assert(count(l.tiles(), Key::Concealed(id)) > 0);
        assert(l.is_restoring(id));
    }
}

/// A layout in which nothing but places changed is as well-formed as the one before.
pub proof fn lemma_same_ownership<H: Host>(l: LayoutView<H>, after: LayoutView<H>)
    requires
        l.wf(),
        after.shaped(),
        after.minimized_windows == l.minimized_windows,
        after.minimize_animations == l.minimize_animations,
        after.interactive_move is None || after.interactive_move == l.interactive_move,
        count(after.ordinary(), Key::Minimized) == count(l.ordinary(), Key::Minimized),
        forall|key: Key<H>| #[trigger] count(after.tiles(), key) == count(l.tiles(), key),
    ensures
        after.wf(),
{
    lemma_still_wf(l, after);
}

} // verus!
