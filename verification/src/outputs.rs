//! Outputs coming and going. Minimized windows belong to no output and stay where they are.

use vstd::prelude::*;

use crate::conceal::lemma_concealed;
use crate::layout::{lemma_same_ownership, monitor_lists, Layout, LayoutView};
use crate::lists::{lemma_filter_map, retain};
use crate::monitor::{workspace_lists, workspace_views, Monitor, MonitorView};
use crate::ownership::{
    count, count_flat, lemma_count_add, lemma_count_flat_insert, lemma_count_flat_remove, Key,
};
use crate::placement::{lemma_monitor_changed, lemma_tiles_split};
use crate::tile::Tile;
use crate::types::{Host, Output, OutputId, OutputState, WorkspaceId};
use crate::workspace::{column_lists, lemma_empty, Workspace, WorkspaceView};

verus! {

/// The workspaces that are worth keeping when their monitor goes away.
pub open spec fn kept_workspaces<H: Host>(list: Seq<WorkspaceView<H>>) -> Seq<WorkspaceView<H>> {
    list.filter(|ws: WorkspaceView<H>| !ws.has_no_windows() || ws.is_named)
}

impl<H: Host> MonitorView<H> {
    /// The monitor with more workspaces, just above the empty one at the bottom. Where that one
    /// is active, it stays active.
    pub open spec fn with_workspaces(self, more: Seq<WorkspaceView<H>>) -> Self {
        let last = self.workspaces.len() - 1;
        MonitorView {
            workspaces: self.workspaces.drop_last() + more + seq![self.workspaces.last()],
            active_workspace_idx: if self.active_workspace_idx == last {
                last + more.len()
            } else {
                self.active_workspace_idx
            },
            ..self
        }
    }
}

impl<H: Host> LayoutView<H> {
    /// The layout with another output. The first one takes the workspaces that had none.
    pub open spec fn with_output(self, output: Output) -> Self {
        LayoutView {
            monitors: self.monitors.push(
                MonitorView::of_output(
                    output,
                    self.orphans,
                    self.next_workspace_id as WorkspaceId,
                ),
            ),
            orphans: Seq::empty(),
            next_workspace_id: self.next_workspace_id + 1,
            ..self
        }
    }

    /// The layout with another state of the output on a monitor.
    pub open spec fn with_output_state(self, monitor: int, state: OutputState) -> Self {
        LayoutView {
            monitors: self.monitors.update(
                monitor,
                MonitorView {
                    output: Output { state, ..self.monitors[monitor].output },
                    ..self.monitors[monitor]
                },
            ),
            ..self
        }
    }

    /// The layout without one of its monitors. Its workspaces go to the first of the others.
    pub open spec fn without_monitor(self, monitor: int) -> Self {
        let kept = kept_workspaces(self.monitors[monitor].workspaces);
        let others = self.monitors.remove(monitor);
        LayoutView {
            monitors: if others.len() == 0 {
                others
            } else {
                others.update(0, others[0].with_workspaces(kept))
            },
            orphans: if others.len() == 0 {
                kept
            } else {
                self.orphans
            },
            active_monitor_idx: if self.active_monitor_idx >= monitor && self.active_monitor_idx
                > 0 {
                self.active_monitor_idx - 1
            } else {
                self.active_monitor_idx
            },
            ..self
        }
    }
}

impl<H: Host> Layout<H> {
    /// Connects an output.
    pub fn add_output(&mut self, output: Output)
        requires
            old(self)@.wf(),
            old(self)@.next_workspace_id < WorkspaceId::MAX,
            forall|monitor: int| !old(self)@.shows(monitor, output.id),
        ensures
            final(self)@.wf(),
            final(self)@ == old(self)@.with_output(output),
    {
        let fresh: WorkspaceId = self.next_workspace_id;
        let mut orphans: Vec<Workspace<H>> = Vec::new();
        std::mem::swap(&mut orphans, &mut self.orphans);
        self.monitors.push(Monitor::of_output(output, orphans, fresh));
        self.next_workspace_id = fresh + 1;
        proof {
            assert(self@ =~~= old(self)@.with_output(output));
            lemma_output_added(old(self)@, output);
        }
    }

    /// Notes that an output was reconfigured. Returns whether it is connected.
    pub fn update_output(&mut self, output: Output) -> (res: bool)
        requires
            old(self)@.wf(),
        ensures
            final(self)@.wf(),
            res == exists|monitor: int| old(self)@.shows(monitor, output.id),
            res ==> exists|monitor: int| #[trigger]
                old(self)@.shows(monitor, output.id) && final(self)@ == old(
                    self,
                )@.with_output_state(monitor, output.state),
            !res ==> final(self)@ == old(self)@,
    {
        match self.find_monitor(&output.id) {
            Some(monitor) => {
                assert(old(self)@.shows(monitor as int, output.id));
                self.monitors[monitor].output.state = output.state;
                proof {
                    assert(self@ =~~= old(self)@.with_output_state(monitor as int, output.state));
                    lemma_output_updated(old(self)@, monitor as int, output.state);
                }
                true
            },
            None => false,
        }
    }

    /// Disconnects an output: its windows go to another monitor, or wait for one.
    pub fn remove_output(&mut self, output: &OutputId)
        requires
            old(self)@.wf(),
        ensures
            final(self)@.wf(),
            forall|monitor: int| !final(self)@.shows(monitor, *output),
            if exists|monitor: int| old(self)@.shows(monitor, *output) {
                exists|monitor: int| #[trigger]
                    old(self)@.shows(monitor, *output) && final(self)@ == old(
                        self,
                    )@.with_output_cancelled(*output).without_monitor(monitor)
            } else {
                final(self)@ == old(self)@
            },
    {
        let monitor: usize = match self.find_monitor(output) {
            Some(monitor) => monitor,
            None => {
                return;
            },
        };
        assert(old(self)@.shows(monitor as int, *output));
        self.remove_animation_output(output);
        let ghost l = self@;
        proof {
            lemma_monitors_kept(old(self)@, *output);
            lemma_monitor_removed(l, monitor as int);
        }
        let Monitor { mut workspaces, .. } = self.monitors.remove(monitor);
        assert(workspace_views(workspaces@) == l.monitors[monitor as int].workspaces);
        keep_workspaces(&mut workspaces);
        if self.active_monitor_idx >= monitor && self.active_monitor_idx > 0 {
            self.active_monitor_idx = self.active_monitor_idx - 1;
        }
        if self.monitors.len() == 0 {
            self.orphans = workspaces;
        } else {
            let first = &mut self.monitors[0];
            first.append_workspaces(workspaces);
        }
        proof {
            assert(self@ =~~= l.without_monitor(monitor as int));
            assert forall|m: int| !self@.shows(m, *output) by {
                if self@.shows(m, *output) {
                    let k = if m < monitor {
                        m
                    } else {
                        m + 1
                    };
                    assert(l.monitors[k].output.id == *output);
                    if k < monitor {
                        assert(l.monitors[k].output.id != l.monitors[monitor as int].output.id);
                    } else {
                        assert(l.monitors[monitor as int].output.id != l.monitors[k].output.id);
                    }
                }
            }
        }
    }
}

/// Drops the workspaces that are not worth keeping.
fn keep_workspaces<H: Host>(list: &mut Vec<Workspace<H>>)
    ensures
        workspace_views(final(list)@) == kept_workspaces(workspace_views(old(list)@)),
{
    let ghost wanted = |ws: WorkspaceView<H>| !ws.has_no_windows() || ws.is_named;
    let ghost shown = |ws: Workspace<H>| ws@;
    let keep = |ws: &Workspace<H>| -> (keep: bool)
        ensures
            keep == (!ws@.has_no_windows() || ws@.is_named),
    { !ws.has_no_windows() || ws.is_named };
    retain(list, keep, Ghost(|ws: Workspace<H>| !ws@.has_no_windows() || ws@.is_named));
    proof {
        let picked = |ws: Workspace<H>| !ws@.has_no_windows() || ws@.is_named;
        assert(picked =~= (|ws: Workspace<H>| wanted(shown(ws))));
        lemma_filter_map(old(list)@, shown, wanted);
    }
}

impl<H: Host> Monitor<H> {
    /// Adds workspaces just above the empty one at the bottom.
    pub fn append_workspaces(&mut self, more: Vec<Workspace<H>>)
        requires
            old(self)@.wf(),
        ensures
            final(self)@ == old(self)@.with_workspaces(workspace_views(more@)),
    {
        let mut more = more;
        let last: usize = self.workspaces.len() - 1;
        let ghost added = workspace_views(more@);
        let bottom = self.workspaces.remove(last);
        self.workspaces.append(&mut more);
        if self.active_workspace_idx == last {
            self.active_workspace_idx = self.workspaces.len();
        }
        self.workspaces.push(bottom);
        assert(self@ =~~= old(self)@.with_workspaces(added));
    }
}

proof fn lemma_output_added<H: Host>(l: LayoutView<H>, output: Output)
    requires
        l.wf(),
        forall|monitor: int| !l.shows(monitor, output.id),
    ensures
        l.with_output(output).wf(),
        forall|key: Key<H>| #[trigger]
            count(l.with_output(output).tiles(), key) == count(l.tiles(), key),
{
    let after = l.with_output(output);
    let fresh = l.next_workspace_id as WorkspaceId;
    let mon = MonitorView::of_output(output, l.orphans, fresh);
    assert forall|key: Key<H>| true implies {
        &&& after.shaped()
        &&& count(after.ordinary(), key) == count(l.ordinary(), key)
        &&& #[trigger] count(after.tiles(), key) == count(l.tiles(), key)
    } by {
        lemma_tiles_split(l, key);
        lemma_tiles_split(after, key);
        lemma_empty::<H>(fresh, key);
        let empty = WorkspaceView::<H>::empty(fresh);
        let orphans = workspace_lists(l.orphans);
        lemma_count_flat_insert(orphans, orphans.len() as int, empty.tiles(), key);
        assert(workspace_lists(mon.workspaces) =~= orphans.insert(
            orphans.len() as int,
            empty.tiles(),
        ));
        let lists = monitor_lists(l.monitors);
        lemma_count_flat_insert(lists, lists.len() as int, mon.tiles(), key);
        assert(monitor_lists(after.monitors) =~= lists.insert(lists.len() as int, mon.tiles()));
        lemma_count_add(lists.flatten(), orphans.flatten(), key);
        lemma_count_add(
            monitor_lists(after.monitors).flatten(),
            workspace_lists(after.orphans).flatten(),
            key,
        );
        assert(workspace_lists(after.orphans) =~= Seq::<Seq<Tile<H>>>::empty());
        assert(mon.wf()) by {
            assert forall|w: int| 0 <= w < mon.workspaces.len() implies (
            #[trigger] mon.workspaces[w]).wf() by {
                if w < l.orphans.len() {
                    assert(l.orphans[w].wf());
                }
            }
        }
        assert forall|m: int| 0 <= m < after.monitors.len() implies (
        #[trigger] after.monitors[m]).wf() by {
            if m < l.monitors.len() {
                assert(l.monitors[m].wf());
            }
        }
        assert forall|m: int, n: int| 0 <= m < n < after.monitors.len() implies (
        #[trigger] after.monitors[m]).output.id != (#[trigger] after.monitors[n]).output.id by {
            assert(!l.shows(m, output.id));
            if n < l.monitors.len() {
                assert(l.monitors[m].output.id != l.monitors[n].output.id);
            }
        }
    }
    assert(count(after.tiles(), Key::Minimized) >= 0);
    lemma_same_ownership(l, after);
}

proof fn lemma_output_updated<H: Host>(l: LayoutView<H>, monitor: int, state: OutputState)
    requires
        l.wf(),
        0 <= monitor < l.monitors.len(),
    ensures
        l.with_output_state(monitor, state).wf(),
{
    let after = l.with_output_state(monitor, state);
    assert(monitor_lists(after.monitors) =~= monitor_lists(l.monitors)) by {
        assert(after.monitors[monitor].tiles() == l.monitors[monitor].tiles());
    }
    assert(after.tiles() == l.tiles() && after.ordinary() == l.ordinary());
    assert forall|m: int| 0 <= m < after.monitors.len() implies (
    #[trigger] after.monitors[m]).wf() by {
        assert(l.monitors[m].wf());
        assert forall|w: int| 0 <= w < after.monitors[m].workspaces.len() implies (
        #[trigger] after.monitors[m].workspaces[w]).wf() by {
            assert(l.monitors[m].workspaces[w].wf());
        }
    }
    assert forall|m: int, n: int| 0 <= m < n < after.monitors.len() implies (
    #[trigger] after.monitors[m]).output.id != (#[trigger] after.monitors[n]).output.id by {
        assert(l.monitors[m].output.id != l.monitors[n].output.id);
    }
    lemma_same_ownership(l, after);
}

/// Dropping empty workspaces loses no window.
proof fn lemma_kept_count<H: Host>(list: Seq<WorkspaceView<H>>, key: Key<H>)
    requires
        forall|w: int| 0 <= w < list.len() ==> (#[trigger] list[w]).wf(),
    ensures
        count_flat(workspace_lists(kept_workspaces(list)), key) == count_flat(
            workspace_lists(list),
            key,
        ),
        forall|w: int|
            0 <= w < kept_workspaces(list).len() ==> (#[trigger] kept_workspaces(list)[w]).wf(),
        kept_workspaces(list).len() <= list.len(),
    decreases list.len(),
{
    reveal(Seq::filter);
    let kept = kept_workspaces(list);
    if list.len() > 0 {
        let rest = list.drop_last();
        let last = list.last();
        assert(last.wf());
        assert forall|w: int| 0 <= w < rest.len() implies (#[trigger] rest[w]).wf() by {
            assert(list[w].wf());
        }
        lemma_kept_count(rest, key);
        let n = list.len() - 1;
        lemma_count_flat_remove(workspace_lists(list), n, key);
        assert(workspace_lists(list).remove(n) =~= workspace_lists(rest));
        let sub = kept_workspaces(rest);
        if !last.has_no_windows() || last.is_named {
            assert(kept == sub.push(last));
            lemma_count_flat_insert(
                workspace_lists(sub),
                sub.len() as int,
                last.tiles(),
                key,
            );
            assert(workspace_lists(kept) =~= workspace_lists(sub).insert(
                sub.len() as int,
                last.tiles(),
            ));
            assert forall|w: int| 0 <= w < kept.len() implies (#[trigger] kept[w]).wf() by {
                if w < sub.len() {
                    assert(sub[w].wf());
                }
            }
        } else {
            assert(kept == sub);
            assert(column_lists(last.columns) =~= Seq::<Seq<Tile<H>>>::empty());
            assert(last.tiles() =~= Seq::<Tile<H>>::empty());
        }
    } else {
        assert(kept =~= list);
    }
}

proof fn lemma_monitor_extended<H: Host>(
    mon: MonitorView<H>,
    more: Seq<WorkspaceView<H>>,
    key: Key<H>,
)
    requires
        mon.wf(),
        forall|w: int| 0 <= w < more.len() ==> (#[trigger] more[w]).wf(),
    ensures
        mon.with_workspaces(more).wf(),
        count(mon.with_workspaces(more).tiles(), key) == count(mon.tiles(), key) + count_flat(
            workspace_lists(more),
            key,
        ),
{
    let after = mon.with_workspaces(more);
    let front = workspace_lists(mon.workspaces.drop_last());
    let middle = workspace_lists(more);
    let back = workspace_lists(seq![mon.workspaces.last()]);
    assert(workspace_lists(after.workspaces) =~= front + middle + back);
    assert(workspace_lists(mon.workspaces) =~= front + back);
    vstd::seq_lib::lemma_flatten_concat(front + middle, back);
    vstd::seq_lib::lemma_flatten_concat(front, middle);
    vstd::seq_lib::lemma_flatten_concat(front, back);
    lemma_count_add(front.flatten() + middle.flatten(), back.flatten(), key);
    lemma_count_add(front.flatten(), middle.flatten(), key);
    lemma_count_add(front.flatten(), back.flatten(), key);
    assert forall|w: int| 0 <= w < after.workspaces.len() implies (
    #[trigger] after.workspaces[w]).wf() by {
        let n = mon.workspaces.len() - 1;
        if w < n {
            assert(mon.workspaces[w].wf());
        } else if w < n + more.len() {
            assert(more[w - n].wf());
        } else {
            assert(mon.workspaces[n].wf());
        }
    }
}

/// Disconnecting a monitor loses no window.
pub proof fn lemma_monitor_removed<H: Host>(l: LayoutView<H>, monitor: int)
    requires
        l.wf(),
        0 <= monitor < l.monitors.len(),
    ensures
        l.without_monitor(monitor).wf(),
        forall|key: Key<H>| #[trigger]
            count(l.without_monitor(monitor).tiles(), key) == count(l.tiles(), key),
{
    let after = l.without_monitor(monitor);
    let mon = l.monitors[monitor];
    let kept = kept_workspaces(mon.workspaces);
    let others = l.monitors.remove(monitor);
    assert(mon.wf());
    assert forall|key: Key<H>| true implies {
        &&& after.shaped()
        &&& count(after.ordinary(), key) == count(l.ordinary(), key)
        &&& #[trigger] count(after.tiles(), key) == count(l.tiles(), key)
    } by {
        lemma_tiles_split(l, key);
        lemma_tiles_split(after, key);
        lemma_kept_count(mon.workspaces, key);
        let lists = monitor_lists(l.monitors);
        let orphans = workspace_lists(l.orphans);
        lemma_count_flat_remove(lists, monitor, key);
        assert(monitor_lists(others) =~= lists.remove(monitor));
        lemma_count_add(lists.flatten(), orphans.flatten(), key);
        assert(orphans =~= Seq::<Seq<Tile<H>>>::empty());
        lemma_count_add(
            monitor_lists(after.monitors).flatten(),
            workspace_lists(after.orphans).flatten(),
            key,
        );
        let rest = LayoutView { monitors: others, active_monitor_idx: 0, ..l };
        assert forall|m: int| 0 <= m < others.len() implies (#[trigger] others[m]).wf() by {
            if m < monitor {
                assert(l.monitors[m].wf());
            } else {
                assert(l.monitors[m + 1].wf());
            }
        }
        assert forall|m: int, n: int| 0 <= m < n < others.len() implies (
        #[trigger] others[m]).output.id != (#[trigger] others[n]).output.id by {
            let a = if m < monitor {
                m
            } else {
                m + 1
            };
            let b = if n < monitor {
                n
            } else {
                n + 1
            };
            assert(l.monitors[a].output.id != l.monitors[b].output.id);
        }
        if others.len() == 0 {
            assert(monitor_lists(after.monitors) =~= Seq::<Seq<Tile<H>>>::empty());
        } else {
            assert(rest.shaped());
            assert(others[0].wf());
            lemma_monitor_extended(others[0], kept, key);
            lemma_count_add(monitor_lists(others).flatten(), orphans.flatten(), key);
            lemma_monitor_changed(rest, after, 0, others[0].with_workspaces(kept), key);
        }
    }
    assert(count(after.tiles(), Key::Minimized) >= 0);
    lemma_same_ownership(l, after);
}

/// Hiding and showing tiles leaves the monitors where they are.
pub proof fn lemma_monitors_kept<H: Host>(l: LayoutView<H>, output: OutputId)
    requires
        l.wf(),
    ensures
        l.with_output_cancelled(output).monitors.len() == l.monitors.len(),
        forall|m: int|
            0 <= m < l.monitors.len() ==> (#[trigger] l.with_output_cancelled(
                output,
            ).monitors[m]).output == l.monitors[m].output,
{
    let hidden = |tile: Tile<H>|
        tile.minimize_animation_hidden && !l.animates_on(tile.window.id, output);
    lemma_concealed(l, hidden);
    let concealed = l.with_concealment(hidden);
    assert forall|m: int| 0 <= m < l.monitors.len() implies (#[trigger] l.with_output_cancelled(
        output,
    ).monitors[m]).output == l.monitors[m].output by {
        assert(concealed.monitors[m].output == l.monitors[m].output);
    }
}

} // verus!
