//! Where restored windows come back, as what, and what stays as it is.

use vstd::prelude::*;

use crate::column::ColumnView;
use crate::laws::{law_restored_window, lemma_restored_focus};
use crate::layout::LayoutView;
use crate::minimized::lemma_returned_holds;
use crate::monitor::{lemma_monitor_added, MonitorView};
use crate::ownership::Key;
use crate::sizing::Request;
use crate::tile::{RemovedTile, Tile};
use crate::types::{
    ActivateWindow, Animation, Clock, ColumnDisplay, Host, OutputId, SizingMode, WindowId,
    WorkspaceId,
};
use crate::window::Window;
use crate::workspace::{lemma_added_wf, Place, WorkspaceView};

verus! {

/// Without an output, a restored window goes to the active monitor; with one, to the monitor that
/// shows it. There is no destination exactly if no output is connected or the named one is not.
pub proof fn law_restore_destination<H: Host>(
    l: LayoutView<H>,
    output: Option<OutputId>,
    monitor: int,
)
    requires
        l.wf(),
    ensures
        l.destination(output, monitor) ==> 0 <= monitor < l.monitors.len(),
        output is None && l.monitors.len() > 0 ==> (l.destination(output, monitor) <==> monitor
            == l.active_monitor_idx),
        output is None && l.monitors.len() == 0 ==> !l.destination(output, monitor),
        0 <= monitor < l.monitors.len() && output is Some ==> (l.destination(output, monitor)
            <==> Some(l.monitors[monitor].output.id) == output),
{
}

/// Without an identity, the most recently minimized window is restored; with one, that window.
pub proof fn law_restore_choice<H: Host>(l: LayoutView<H>, id: Option<WindowId>, index: int)
    requires
        l.wf(),
    ensures
        l.chosen(id, index) ==> 0 <= index < l.minimized_windows.len(),
        id is None && l.minimized_windows.len() > 0 ==> (l.chosen(id, index) <==> index
            == l.minimized_windows.len() - 1),
        0 <= index < l.minimized_windows.len() && id is Some ==> (l.chosen(id, index) <==> Some(
            l.minimized_windows[index].removed.tile.window.id,
        ) == id),
{
}

/// A window that is restored without an output comes back on the current workspace of the output
/// that was active.
pub proof fn law_restore_to_the_active_output<H: Host>(
    l: LayoutView<H>,
    id: Option<WindowId>,
    monitor: int,
    index: int,
    activate: ActivateWindow,
) -> (place: Place<int>)
    requires
        l.wf(),
        l.monitors.len() > 0,
        l.destination(None, monitor),
        l.chosen(id, index),
    ensures
        l.with_restored(
            monitor,
            index,
            activate,
        ).monitors[l.active_monitor_idx].workspaces[l.monitors[l.active_monitor_idx].active_workspace_idx].holds_at(
            place,
            l.minimized_windows[index].removed.tile.window.id,
        ),
        l.with_restored(monitor, index, activate).active_monitor_idx == l.active_monitor_idx,
{
    law_restored_window(l, monitor, index, activate)
}

/// A window that is restored to an output comes back on the current workspace of that output.
pub proof fn law_restore_to_an_output<H: Host>(
    l: LayoutView<H>,
    id: Option<WindowId>,
    output: OutputId,
    monitor: int,
    index: int,
    activate: ActivateWindow,
) -> (place: Place<int>)
    requires
        l.wf(),
        l.destination(Some(output), monitor),
        l.chosen(id, index),
    ensures
        l.monitors[monitor].output.id == output,
        l.with_restored(
            monitor,
            index,
            activate,
        ).monitors[monitor].workspaces[l.monitors[monitor].active_workspace_idx].holds_at(
            place,
            l.minimized_windows[index].removed.tile.window.id,
        ),
        activate == ActivateWindow::Yes ==> l.with_restored(
            monitor,
            index,
            activate,
        ).active_monitor_idx == monitor,
        activate != ActivateWindow::Yes ==> l.with_restored(
            monitor,
            index,
            activate,
        ).active_monitor_idx == l.active_monitor_idx,
{
    law_restored_window(l, monitor, index, activate)
}

/// An animation is over when its time is, or when animations are switched off.
pub open spec fn over(animation: Animation, clock: Clock) -> bool {
    clock.complete_instantly || animation.start + animation.duration <= clock.now
}

/// What is left of an animation of a tile that comes back.
pub open spec fn left_of(before: Option<Animation>, clock: Clock, after: Option<Animation>) -> bool {
    match before {
        Some(animation) => if over(animation, clock) {
            after is None
        } else {
            after == before
        },
        None => after is None,
    }
}

/// A restored window that is not maximized is what it was while minimized, but for the minimized
/// mark, the animations that have finished meanwhile and the position that is still to be found.
pub proof fn law_restored_tile<H: Host>(
    l: LayoutView<H>,
    monitor: int,
    index: int,
    activate: ActivateWindow,
)
    requires
        l.wf(),
        0 <= monitor < l.monitors.len(),
        0 <= index < l.minimized_windows.len(),
    ensures
        ({
            let entry = l.minimized_windows[index];
            let before = entry.removed.tile;
            let back = entry.returning(l.clock);
            &&& back.width == entry.removed.width
            &&& back.is_full_width == entry.removed.is_full_width
            &&& back.is_floating == entry.removed.is_floating
            &&& back.tile == (Tile {
                window: Window { minimized: false, ..before.window },
                floating_center: entry.floating_center,
                open_animation: back.tile.open_animation,
                resize_animation: back.tile.resize_animation,
                move_x_animation: back.tile.move_x_animation,
                move_y_animation: back.tile.move_y_animation,
                alpha_animation: back.tile.alpha_animation,
                ..before
            })
            &&& left_of(before.open_animation, l.clock, back.tile.open_animation)
            &&& left_of(before.resize_animation, l.clock, back.tile.resize_animation)
            &&& left_of(before.move_x_animation, l.clock, back.tile.move_x_animation)
            &&& left_of(before.move_y_animation, l.clock, back.tile.move_y_animation)
            &&& left_of(before.alpha_animation, l.clock, back.tile.alpha_animation)
            &&& !entry.maximized ==> l.with_restored(
                monitor,
                index,
                activate,
            ).monitors[monitor].workspaces[l.monitors[monitor].active_workspace_idx].tile(
                l.monitors[monitor].active_workspace().place_for(back),
            ) == (Tile {
                restore_to_floating: entry.removed.is_floating,
                view_pos: None,
                ..back.tile
            })
        }),
{
    let removed = l.minimized_windows[index].returning(l.clock);
    let mon = l.monitors[monitor];
    assert(mon.wf());
    assert(mon.active_workspace().wf());
    lemma_monitor_added(mon, removed, activate, l.next_workspace_id as WorkspaceId, Key::Minimized);
}

/// A new tile enters a workspace on top of the floating windows, if it floats in its normal size,
/// and else in a column of its own with its settings, to the right of the active one. Everything
/// else in the workspace stays as it is, in its order.
pub proof fn law_tile_enters_a_workspace<H: Host>(
    ws: WorkspaceView<H>,
    removed: RemovedTile<H>,
    activate: bool,
)
    requires
        ws.wf(),
    ensures
        ({
            let after = ws.with_added(removed, activate);
            let tile = Tile {
                restore_to_floating: removed.is_floating,
                view_pos: None,
                ..removed.tile
            };
            let mode = removed.tile.window.pending_sizing_mode;
            &&& after.id == ws.id
            &&& after.is_named == ws.is_named
            &&& removed.is_floating && mode == SizingMode::Normal ==> {
                &&& after.columns == ws.columns
                &&& after.active_column_idx == ws.active_column_idx
                &&& after.floating == seq![tile] + ws.floating
                &&& activate || ws.floating.len() == 0 ==> after.active_floating == Some(
                    removed.tile.window.id,
                )
                &&& !activate && ws.floating.len() > 0 ==> after.active_floating
                    == ws.active_floating
                &&& after.floating_is_active == (ws.floating_is_active || activate
                    || ws.columns.len() == 0)
            }
            &&& !(removed.is_floating && mode == SizingMode::Normal) ==> {
                let at = if ws.columns.len() == 0 {
                    0
                } else {
                    ws.active_column_idx + 1
                };
                &&& after.floating == ws.floating
                &&& after.active_floating == ws.active_floating
                &&& after.floating_is_active == (ws.floating_is_active && !activate)
                &&& activate ==> after.active_column_idx == at
                &&& !activate ==> after.active_column_idx == ws.active_column_idx
                &&& after.columns.len() == ws.columns.len() + 1
                &&& after.columns.remove(at) == ws.columns
                &&& after.columns[at].tiles == seq![tile]
                &&& after.columns[at].width == removed.width
                &&& after.columns[at].is_full_width == removed.is_full_width
                &&& after.columns[at].display == ColumnDisplay::Normal
                &&& after.columns[at].is_pending_fullscreen == (mode == SizingMode::Fullscreen)
                &&& after.columns[at].is_pending_maximized == (mode == SizingMode::Maximized)
            }
            &&& activate ==> after.focus() == Some(removed.tile.window.id)
            &&& !activate && ws.focus() is Some ==> after.focus() == ws.focus()
            &&& ws.focus() is None ==> after.focus() == Some(removed.tile.window.id)
        }),
{
    let after = ws.with_added(removed, activate);
    lemma_added_wf(ws, removed, activate);
    if removed.is_floating && removed.tile.window.pending_sizing_mode == SizingMode::Normal {
        assert(after.floating =~= seq![removed.tile.placed(true)] + ws.floating);
    } else {
        let at = if ws.columns.len() == 0 {
            0
        } else {
            ws.active_column_idx + 1
        };
        assert(after.columns.remove(at) =~= ws.columns);
        assert(after.columns[at].tiles =~= seq![removed.tile.placed(removed.is_floating)]);
    }
    if ws.columns.len() > 0 {
        assert(ws.columns[ws.active_column_idx].wf());
    }
}

/// A new tile on a monitor goes to the active workspace, which stays active. No other workspace
/// changes, but that an empty one is added where the tile went to the bottom.
pub proof fn law_tile_enters_a_monitor<H: Host>(
    mon: MonitorView<H>,
    removed: RemovedTile<H>,
    activate: ActivateWindow,
    fresh: WorkspaceId,
)
    requires
        mon.wf(),
    ensures
        ({
            let after = mon.with_added(removed, activate, fresh);
            let active = mon.workspaces[mon.active_workspace_idx];
            let waits = !active.floating_is_active && active.columns.len() > 0
                && active.columns[active.active_column_idx].is_pending_fullscreen;
            let takes_focus = activate == ActivateWindow::Yes || (activate == ActivateWindow::Smart
                && !waits);
            &&& after.output == mon.output
            &&& after.active_workspace_idx == mon.active_workspace_idx
            &&& after.workspaces[mon.active_workspace_idx] == active.with_added(
                removed,
                takes_focus,
            )
            &&& mon.active_workspace_idx + 1 < mon.workspaces.len() ==> after.workspaces.len()
                == mon.workspaces.len()
            &&& mon.active_workspace_idx + 1 == mon.workspaces.len() ==> {
                &&& after.workspaces.len() == mon.workspaces.len() + 1
                &&& after.workspaces.last().id == fresh
                &&& after.workspaces.last().columns.len() == 0
                &&& after.workspaces.last().floating.len() == 0
                &&& !after.workspaces.last().is_named
            }
        }),
        forall|w: int|
            0 <= w < mon.workspaces.len() && w != mon.active_workspace_idx
                ==> #[trigger] mon.with_added(removed, activate, fresh).workspaces[w]
                == mon.workspaces[w],
{
}

/// Restoring changes the queue and the current workspace of one monitor, and nothing else, but
/// that the monitor may become the active one and may get another empty workspace.
pub proof fn law_restoring_leaves_the_rest_alone<H: Host>(
    l: LayoutView<H>,
    monitor: int,
    index: int,
    activate: ActivateWindow,
)
    requires
        l.wf(),
        0 <= monitor < l.monitors.len(),
        0 <= index < l.minimized_windows.len(),
    ensures
        ({
            let entry = l.minimized_windows[index];
            let after = l.with_restored(monitor, index, activate);
            let mon = l.monitors[monitor];
            let added = mon.with_added(
                entry.returning(l.clock),
                activate,
                l.next_workspace_id as WorkspaceId,
            );
            &&& after == (LayoutView {
                monitors: after.monitors,
                active_monitor_idx: after.active_monitor_idx,
                minimized_windows: l.minimized_windows.remove(index),
                next_workspace_id: after.next_workspace_id,
                ..l
            })
            &&& activate == ActivateWindow::Yes ==> after.active_monitor_idx == monitor
            &&& activate != ActivateWindow::Yes ==> after.active_monitor_idx
                == l.active_monitor_idx
            &&& after.monitors.len() == l.monitors.len()
            &&& after.monitors[monitor].output == mon.output
            &&& after.monitors[monitor].active_workspace_idx == mon.active_workspace_idx
            &&& after.monitors[monitor].workspaces.len() == added.workspaces.len()
            &&& !entry.maximized ==> after.monitors[monitor] == added
            &&& after.next_workspace_id == if mon.active_workspace_idx + 1
                == mon.workspaces.len() {
                l.next_workspace_id + 1
            } else {
                l.next_workspace_id
            }
        }),
        forall|m: int|
            0 <= m < l.monitors.len() && m != monitor ==> #[trigger] l.with_restored(
                monitor,
                index,
                activate,
            ).monitors[m] == l.monitors[m],
        forall|w: int|
            0 <= w < l.monitors[monitor].workspaces.len() && w
                != l.monitors[monitor].active_workspace_idx ==> #[trigger] l.with_restored(
                monitor,
                index,
                activate,
            ).monitors[monitor].workspaces[w] == l.monitors[monitor].workspaces[w],
{
    let entry = l.minimized_windows[index];
    let mon = l.monitors[monitor];
    let removed = entry.returning(l.clock);
    let returned = l.with_returned(monitor, index, activate);
    assert(mon.wf());
    lemma_returned_holds(l, monitor, index, activate);
    law_tile_enters_a_monitor(mon, removed, activate, l.next_workspace_id as WorkspaceId);
    assert(returned.monitors[monitor] == mon.with_added(
        removed,
        activate,
        l.next_workspace_id as WorkspaceId,
    ));
    assert forall|w: int|
        0 <= w < mon.workspaces.len() && w != mon.active_workspace_idx implies #[trigger] l.with_restored(
        monitor,
        index,
        activate,
    ).monitors[monitor].workspaces[w] == mon.workspaces[w] by {
        assert(returned.monitors[monitor].workspaces[w] == mon.workspaces[w]);
    }
}

/// A window that was maximized comes back maximized, or fullscreen with its maximization
/// underneath, in a column of its own with its settings. The rest of the workspace is as it would
/// be with any other window.
pub proof fn law_maximized_restore<H: Host>(
    l: LayoutView<H>,
    monitor: int,
    index: int,
    activate: ActivateWindow,
)
    requires
        l.wf(),
        0 <= monitor < l.monitors.len(),
        0 <= index < l.minimized_windows.len(),
        l.minimized_windows[index].maximized,
    ensures
        ({
            let entry = l.minimized_windows[index];
            let mode = entry.removed.tile.window.pending_sizing_mode;
            let mon = l.monitors[monitor];
            let w = mon.active_workspace_idx;
            let ws = mon.workspaces[w];
            let at = if ws.columns.len() == 0 {
                0
            } else {
                ws.active_column_idx + 1
            };
            let added = mon.with_added(
                entry.returning(l.clock),
                activate,
                l.next_workspace_id as WorkspaceId,
            ).workspaces[w];
            let after = l.with_restored(monitor, index, activate).monitors[monitor].workspaces[w];
            &&& after == (WorkspaceView { columns: after.columns, ..added })
            &&& after.columns.len() == added.columns.len()
            &&& after.columns.remove(at) == ws.columns
            &&& after.columns[at] == (ColumnView {
                tiles: after.columns[at].tiles,
                is_pending_maximized: true,
                ..added.columns[at]
            })
            &&& after.columns[at].is_pending_fullscreen == (mode == SizingMode::Fullscreen)
            &&& after.columns[at].tiles.len() == 1
            &&& after.columns[at].tiles[0] == (Tile {
                window: after.columns[at].tiles[0].window,
                ..added.columns[at].tiles[0]
            })
            &&& after.columns[at].tiles[0].window.pending_sizing_mode == mode
            &&& mode == SizingMode::Maximized ==> after.columns[at].tiles[0]
                == added.columns[at].tiles[0]
            &&& after.columns[at].tiles[0].window.same_object(entry.removed.tile.window)
        }),
{
    let entry = l.minimized_windows[index];
    assert(entry.wf());
    let removed = entry.returning(l.clock);
    let mon = l.monitors[monitor];
    let fresh = l.next_workspace_id as WorkspaceId;
    assert(mon.wf());
    let w = mon.active_workspace_idx;
    let ws = mon.workspaces[w];
    assert(ws.wf());
    law_tile_enters_a_monitor(mon, removed, activate, fresh);
    let added = mon.with_added(removed, activate, fresh).workspaces[w];
    let decided = activate.decided(!ws.active_is_fullscreen());
    law_tile_enters_a_workspace(ws, removed, decided);
    lemma_monitor_added(mon, removed, activate, fresh, Key::Minimized);
    lemma_added_wf(ws, removed, decided);
    let place = ws.place_for(removed);
    let column = place->column;
    assert(added == ws.with_added(removed, decided));
    let after = added.sized(place, Request::Maximized, true);
    assert(l.with_restored(monitor, index, activate).monitors[monitor].workspaces[w] == after);
    assert(added.columns[column].tiles.len() == 1);
    if entry.removed.tile.window.pending_sizing_mode == SizingMode::Fullscreen {
        assert(after.columns.remove(column) =~= added.columns.remove(column));
    } else {
        assert(after == added);
    }
}

/// Restoring with smart activation moves the focus of the active monitor to the window, unless the
/// focused window waits for fullscreen.
pub proof fn law_smart_restore<H: Host>(l: LayoutView<H>, index: int)
    requires
        l.wf(),
        l.monitors.len() > 0,
        0 <= index < l.minimized_windows.len(),
    ensures
        ({
            let mon = l.monitors[l.active_monitor_idx];
            let ws = mon.workspaces[mon.active_workspace_idx];
            let waits = !ws.floating_is_active && ws.columns.len() > 0
                && ws.columns[ws.active_column_idx].is_pending_fullscreen;
            l.with_restored(l.active_monitor_idx, index, ActivateWindow::Smart).focus() == if waits {
                l.focus()
            } else {
                Some(l.minimized_windows[index].removed.tile.window.id)
            }
        }),
{
    let m = l.active_monitor_idx;
    let mon = l.monitors[m];
    assert(mon.wf());
    let ws = mon.workspaces[mon.active_workspace_idx];
    assert(ws.wf());
    let entry = l.minimized_windows[index];
    let removed = entry.returning(l.clock);
    if ws.columns.len() > 0 {
        assert(ws.columns[ws.active_column_idx].wf());
    }
    law_tile_enters_a_workspace(ws, removed, !ws.active_is_fullscreen());
    lemma_restored_focus(l, m, index, ActivateWindow::Smart);
}

} // verus!
