//! What windows opening and closing, and outputs coming and going, change and leave alone.

use vstd::prelude::*;

use crate::layout::{LayoutView, Slot};
use crate::lists::lemma_filter_contains;
use crate::monitor::MonitorView;
use crate::outputs::kept_workspaces;
use crate::retile::lemma_with_tile;
use crate::spots::Spot;
use crate::tile::{RemovedTile, Tile};
use crate::types::{
    ActivateWindow, Clock, Host, Options, Output, OutputState, WorkspaceId,
};
use crate::workspace::{Place, WorkspaceView};

verus! {

/// A new window goes to the active monitor, or to the first workspace while no output is
/// connected. Nothing else changes.
pub proof fn law_new_window<H: Host>(
    l: LayoutView<H>,
    removed: RemovedTile<H>,
    activate: ActivateWindow,
)
    requires
        l.wf(),
    ensures
        l.with_window(removed, activate) == (LayoutView {
            monitors: l.with_window(removed, activate).monitors,
            orphans: l.with_window(removed, activate).orphans,
            next_workspace_id: l.with_window(removed, activate).next_workspace_id,
            ..l
        }),
        l.monitors.len() > 0 ==> {
            let mon = l.monitors[l.active_monitor_idx];
            &&& l.with_window(removed, activate).orphans == l.orphans
            &&& l.with_window(removed, activate).monitors == l.monitors.update(
                l.active_monitor_idx,
                mon.with_added(removed, activate, l.next_workspace_id as WorkspaceId),
            )
        },
        l.monitors.len() == 0 && l.orphans.len() > 0 ==> {
            &&& l.with_window(removed, activate).monitors == l.monitors
            &&& l.with_window(removed, activate).orphans == l.orphans.update(
                0,
                l.orphans[0].with_added(removed, true),
            )
        },
        l.monitors.len() == 0 && l.orphans.len() == 0 ==> {
            let empty = WorkspaceView::<H> {
                id: l.next_workspace_id as WorkspaceId,
                is_named: false,
                columns: Seq::empty(),
                active_column_idx: 0,
                floating: Seq::empty(),
                active_floating: None,
                floating_is_active: false,
            };
            &&& l.with_window(removed, activate).monitors == l.monitors
            &&& l.with_window(removed, activate).orphans == seq![empty.with_added(removed, true)]
        },
{
}

/// A window that is given up leaves nothing behind, wherever it was, and takes its tile and its
/// settings along.
pub proof fn law_window_is_given_up<H: Host>(l: LayoutView<H>, spot: Spot<int>)
    requires
        l.wf(),
        l.valid(spot),
    ensures
        l.leaving(spot).tile == l.tile(spot),
        spot is Moving ==> {
            &&& l.leaving(spot) == l.interactive_move.unwrap().removed
            &&& l.without_spot(spot) == (LayoutView { interactive_move: None, ..l })
        },
        spot matches Spot::Minimized { index } ==> {
            &&& l.leaving(spot) == l.minimized_windows[index].removed
            &&& l.without_spot(spot) == (LayoutView {
                minimized_windows: l.minimized_windows.remove(index),
                ..l
            })
        },
        spot matches Spot::Held { slot, place } ==> {
            &&& l.leaving(spot) == l.workspace(slot).removed(place)
            &&& l.without_spot(spot) == (LayoutView {
                monitors: l.without_spot(spot).monitors,
                orphans: l.without_spot(spot).orphans,
                ..l
            })
            &&& slot matches Slot::OnMonitor { monitor, workspace } ==> {
                &&& l.without_spot(spot).orphans == l.orphans
                &&& l.without_spot(spot).monitors == l.monitors.update(
                    monitor,
                    l.monitors[monitor].without(workspace, place),
                )
            }
            &&& slot is Orphan ==> l.without_spot(spot).monitors == l.monitors
        },
{
}

/// A new output comes last. The first one takes the workspaces that had none, in their order;
/// there is an empty one at the bottom, and the topmost is shown.
pub proof fn law_output_is_connected<H: Host>(l: LayoutView<H>, output: Output)
    requires
        l.wf(),
    ensures
        ({
            let after = l.with_output(output);
            let mon = after.monitors.last();
            &&& after == (LayoutView {
                monitors: l.monitors.push(mon),
                orphans: Seq::empty(),
                next_workspace_id: l.next_workspace_id + 1,
                ..l
            })
            &&& mon.output == output
            &&& mon.active_workspace_idx == 0
            &&& mon.workspaces.len() == l.orphans.len() + 1
            &&& mon.workspaces.drop_last() == l.orphans
            &&& mon.workspaces.last().id == l.next_workspace_id as WorkspaceId
            &&& mon.workspaces.last().columns.len() == 0
            &&& mon.workspaces.last().floating.len() == 0
            &&& !mon.workspaces.last().is_named
        }),
{
    let mon = l.with_output(output).monitors.last();
    assert(mon.workspaces.drop_last() =~= l.orphans);
    assert(l.with_output(output).monitors =~= l.monitors.push(mon));
}

/// Reconfiguring an output changes its state and nothing else.
pub proof fn law_output_is_reconfigured<H: Host>(
    l: LayoutView<H>,
    monitor: int,
    state: OutputState,
)
    requires
        l.wf(),
        0 <= monitor < l.monitors.len(),
    ensures
        ({
            let after = l.with_output_state(monitor, state);
            &&& after == (LayoutView { monitors: after.monitors, ..l })
            &&& after.monitors.len() == l.monitors.len()
            &&& after.monitors[monitor] == (MonitorView {
                output: Output { id: l.monitors[monitor].output.id, state },
                ..l.monitors[monitor]
            })
        }),
        forall|m: int|
            0 <= m < l.monitors.len() && m != monitor ==> #[trigger] l.with_output_state(
                monitor,
                state,
            ).monitors[m] == l.monitors[m],
{
}

/// When an output goes, its workspaces that hold a window or have a name join the first of the
/// other monitors in their order, just above the empty one at the bottom; without another monitor
/// they wait. The workspaces that are shown stay shown, and the active output stays active unless
/// it is the one that goes. The minimized windows stay as they are.
pub proof fn law_output_is_disconnected<H: Host>(l: LayoutView<H>, monitor: int)
    requires
        l.wf(),
        0 <= monitor < l.monitors.len(),
    ensures
        ({
            let after = l.without_monitor(monitor);
            let kept = l.monitors[monitor].workspaces.filter(
                |ws: WorkspaceView<H>|
                    ws.columns.len() > 0 || ws.floating.len() > 0 || ws.is_named,
            );
            let first = if monitor == 0 {
                1int
            } else {
                0int
            };
            &&& after == (LayoutView {
                monitors: after.monitors,
                orphans: after.orphans,
                active_monitor_idx: after.active_monitor_idx,
                ..l
            })
            &&& after.monitors.len() == l.monitors.len() - 1
            &&& l.monitors.len() == 1 ==> after.orphans == kept
            &&& l.monitors.len() > 1 ==> {
                let old = l.monitors[first];
                let new = after.monitors[0];
                &&& after.orphans == l.orphans
                &&& new.output == old.output
                &&& new.workspaces == old.workspaces.drop_last() + kept + seq![
                    old.workspaces.last(),
                ]
                &&& new.workspaces[new.active_workspace_idx]
                    == old.workspaces[old.active_workspace_idx]
                &&& monitor == l.active_monitor_idx ==> after.active_monitor_idx == if monitor > 0 {
                    monitor - 1
                } else {
                    0
                }
                &&& monitor != l.active_monitor_idx
                    ==> after.monitors[after.active_monitor_idx].output
                    == l.monitors[l.active_monitor_idx].output
            }
        }),
        forall|m: int|
            0 < m < l.monitors.len() - 1 ==> #[trigger] l.without_monitor(monitor).monitors[m]
                == l.monitors[if m < monitor {
                m
            } else {
                m + 1
            }],
{
    let after = l.without_monitor(monitor);
    let wanted = |ws: WorkspaceView<H>|
        ws.columns.len() > 0 || ws.floating.len() > 0 || ws.is_named;
    let kept = kept_workspaces(l.monitors[monitor].workspaces);
    assert(wanted =~= (|ws: WorkspaceView<H>| !ws.has_no_windows() || ws.is_named));
    assert(kept == l.monitors[monitor].workspaces.filter(wanted));
    if l.monitors.len() > 1 {
        let first = if monitor == 0 {
            1int
        } else {
            0int
        };
        let old = l.monitors[first];
        assert(old.wf());
        assert(l.monitors.remove(monitor)[0] == old);
    }
}

/// No workspace that holds a window or has a name is lost with its output.
pub proof fn law_no_workspace_is_lost<H: Host>(l: LayoutView<H>, monitor: int, workspace: int)
    requires
        l.wf(),
        0 <= monitor < l.monitors.len(),
        0 <= workspace < l.monitors[monitor].workspaces.len(),
        !l.monitors[monitor].workspaces[workspace].has_no_windows()
            || l.monitors[monitor].workspaces[workspace].is_named,
    ensures
        l.monitors.len() > 1 ==> l.without_monitor(monitor).monitors[0].workspaces.contains(
            l.monitors[monitor].workspaces[workspace],
        ),
        l.monitors.len() == 1 ==> l.without_monitor(monitor).orphans.contains(
            l.monitors[monitor].workspaces[workspace],
        ),
{
    let all = l.monitors[monitor].workspaces;
    let wanted = |ws: WorkspaceView<H>| !ws.has_no_windows() || ws.is_named;
    let kept = kept_workspaces(all);
    lemma_filter_contains(all, wanted);
    assert(wanted(all[workspace]));
    assert(kept.contains(all[workspace]));
    if l.monitors.len() > 1 {
        let old = l.monitors.remove(monitor)[0];
        assert(old.wf()) by {
            if monitor == 0 {
                assert(l.monitors[1].wf());
            } else {
                assert(l.monitors[0].wf());
            }
        }
        let k = choose|k: int| 0 <= k < kept.len() && kept[k] == all[workspace];
        let new = l.without_monitor(monitor).monitors[0];
        assert(new.workspaces[old.workspaces.len() - 1 + k] == all[workspace]);
    }
}

/// The position of a floating window and its center are noted for that window, and nothing else
/// changes.
pub proof fn law_floating_position<H: Host>(
    l: LayoutView<H>,
    slot: Slot<int>,
    place: Place<int>,
    position: H::Position,
    center: H::Center,
    spot: Spot<int>,
)
    requires
        l.occupied(slot, place),
        l.valid(spot),
    ensures
        ({
            let held = Spot::Held { slot, place };
            let after = l.with_position(slot, place, position, center);
            &&& after.spots() == l.spots()
            &&& after.tile(held) == (Tile {
                view_pos: Some(position),
                floating_center: Some(center),
                ..l.tile(held)
            })
            &&& spot != held ==> after.tile(spot) == l.tile(spot)
            &&& after.only_tiles_differ(l)
        }),
{
    let held = Spot::Held { slot, place };
    lemma_with_tile(
        l,
        held,
        Tile { view_pos: Some(position), floating_center: Some(center), ..l.tile(held) },
    );
}

/// A layout begins without outputs, windows, transitions and hints.
pub proof fn law_new_layout<H: Host>(clock: Clock, options: Options)
    ensures
        ({
            let l = LayoutView::<H>::vacant(clock, options);
            &&& l.monitors.len() == 0
            &&& l.orphans.len() == 0
            &&& l.interactive_move is None
            &&& l.minimized_windows.len() == 0
            &&& l.minimize_animations.len() == 0
            &&& l.minimize_targets.len() == 0
            &&& !l.overview_open
            &&& l.clock == clock
            &&& l.options == options
        }),
{
}

} // verus!
