//! What minimizing does to the window, and what it leaves alone.

use vstd::prelude::*;

use crate::column::ColumnView;
use crate::layout::{LayoutView, Slot};
use crate::monitor::MonitorView;
use crate::ownership::Key;
use crate::placement::lemma_monitor_for;
use crate::tile::Tile;
use crate::types::{ActivateWindow, Host, WindowId, WorkspaceId};
use crate::window::Window;
use crate::workspace::{lemma_added_wf, lemma_empty, Place, WorkspaceView};

verus! {

/// A tile that leaves a column which it shares takes nothing along: the column keeps its settings
/// and its other tiles in their order. The active tile stays active; where it is the one that
/// leaves, the next one becomes active, or else the last.
pub proof fn law_tile_leaves_a_shared_column<H: Host>(c: ColumnView<H>, row: int)
    requires
        c.wf(),
        0 <= row < c.tiles.len(),
        c.tiles.len() > 1,
    ensures
        c.without(row) == (ColumnView {
            tiles: c.tiles.remove(row),
            active_tile_idx: c.without(row).active_tile_idx,
            ..c
        }),
        0 <= c.without(row).active_tile_idx < c.tiles.len() - 1,
        row != c.active_tile_idx ==> c.without(row).tiles[c.without(row).active_tile_idx]
            == c.tiles[c.active_tile_idx],
        row == c.active_tile_idx && row + 1 < c.tiles.len() ==> c.without(row).tiles[c.without(
            row,
        ).active_tile_idx] == c.tiles[row + 1],
        row == c.active_tile_idx && row + 1 == c.tiles.len() ==> c.without(row).tiles[c.without(
            row,
        ).active_tile_idx] == c.tiles[row - 1],
{
}

/// A tile that leaves a workspace leaves no placeholder: its column shrinks, or goes with it where
/// it was alone. Everything else in the workspace stays as it is, in its order.
pub proof fn law_tile_leaves_its_workspace<H: Host>(ws: WorkspaceView<H>, place: Place<int>)
    requires
        ws.wf(),
        ws.valid(place),
    ensures
        ws.without(place).id == ws.id,
        ws.without(place).is_named == ws.is_named,
        place matches Place::Tiled { column, row } ==> {
            &&& ws.without(place).floating == ws.floating
            &&& ws.without(place).active_floating == ws.active_floating
            &&& ws.columns[column].tiles.len() > 1 ==> {
                &&& ws.without(place).columns == ws.columns.update(
                    column,
                    ws.columns[column].without(row),
                )
                &&& ws.without(place).active_column_idx == ws.active_column_idx
                &&& ws.without(place).floating_is_active == ws.floating_is_active
            }
            &&& ws.columns[column].tiles.len() == 1 ==> {
                &&& ws.without(place).columns == ws.columns.remove(column)
                &&& column != ws.active_column_idx
                    ==> ws.without(place).columns[ws.without(place).active_column_idx]
                    == ws.columns[ws.active_column_idx]
                &&& column == ws.active_column_idx && column + 1 < ws.columns.len()
                    ==> ws.without(place).columns[ws.without(place).active_column_idx]
                    == ws.columns[column + 1]
                &&& column == ws.active_column_idx && column + 1 == ws.columns.len() && column > 0
                    ==> ws.without(place).columns[ws.without(place).active_column_idx]
                    == ws.columns[column - 1]
                &&& ws.columns.len() > 1 ==> ws.without(place).floating_is_active
                    == ws.floating_is_active
                &&& ws.columns.len() == 1 ==> ws.without(place).floating_is_active == (
                ws.floating.len() > 0)
            }
        },
        place matches Place::Floating { index } ==> {
            &&& ws.without(place).columns == ws.columns
            &&& ws.without(place).active_column_idx == ws.active_column_idx
            &&& ws.without(place).floating == ws.floating.remove(index)
            &&& ws.floating.len() > 1 ==> ws.without(place).floating_is_active
                == ws.floating_is_active
            &&& ws.floating.len() == 1 ==> !ws.without(place).floating_is_active && ws.without(
                place,
            ).active_floating is None
            &&& ws.floating.len() > 1 && ws.active_floating != Some(
                ws.floating[index].window.id,
            ) ==> ws.without(place).active_floating == ws.active_floating
            &&& ws.floating.len() > 1 && ws.active_floating == Some(ws.floating[index].window.id)
                ==> ws.without(place).active_floating == Some(
                ws.without(place).floating[0].window.id,
            )
        },
{
    if let Place::Tiled { column, row } = place {
        assert(ws.columns[column].wf());
    }
}

/// What leaves a workspace with a tile: the settings of its column, or the width that a column of
/// its own would have.
pub proof fn law_tile_takes_its_settings_along<H: Host>(ws: WorkspaceView<H>, place: Place<int>)
    requires
        ws.valid(place),
    ensures
        ws.removed(place).tile == ws.tile(place),
        ws.removed(place).is_floating == (place is Floating),
        place matches Place::Tiled { column, .. } ==> ws.removed(place).width
            == ws.columns[column].width && ws.removed(place).is_full_width
            == ws.columns[column].is_full_width,
        place is Floating ==> ws.removed(place).width == ws.tile(place).natural_width
            && !ws.removed(place).is_full_width,
{
}

/// A window that leaves a workspace does not take the focus of another window along.
pub proof fn law_leaving_keeps_the_focus_of_others<H: Host>(
    ws: WorkspaceView<H>,
    place: Place<int>,
    other: WindowId,
)
    requires
        ws.wf(),
        ws.valid(place),
        ws.focus() == Some(other),
        other != ws.tile(place).window.id,
    ensures
        ws.without(place).focus() == Some(other),
{
    law_tile_leaves_its_workspace(ws, place);
    if let Place::Tiled { column, row } = place {
        let c = ws.columns[column];
        assert(c.wf());
        if !ws.floating_is_active {
            assert(ws.columns[ws.active_column_idx].wf());
            if c.tiles.len() > 1 {
                law_tile_leaves_a_shared_column(c, row);
            }
        }
    }
}

/// Minimizing a window does not move the focus off another window.
pub proof fn law_minimizing_keeps_the_focus_of_others<H: Host>(
    l: LayoutView<H>,
    id: WindowId,
    slot: Slot<int>,
    place: Place<int>,
    other: WindowId,
)
    requires
        l.wf(),
        !l.is_moving(id),
        l.dropped(id).holds_at(slot, place, id),
        l.focus() == Some(other),
        other != id,
    ensures
        l.dropped(id).with_minimized(slot, place).focus() == Some(other),
{
    let m = l.active_monitor_idx;
    let mon = l.monitors[m];
    assert(l.dropped(id) == l);
    assert(mon.wf());
    if let Slot::OnMonitor { monitor, workspace } = slot {
        if monitor == m {
            law_tile_leaves_its_monitor(mon, workspace, place);
            if workspace == mon.active_workspace_idx {
                assert(mon.workspaces[workspace].wf());
                law_leaving_keeps_the_focus_of_others(mon.workspaces[workspace], place, other);
            }
        }
    }
}

/// A tile that leaves a monitor touches no workspace but its own, and the same workspace stays
/// active. Its own workspace goes too where it has become empty, unless it is named, active or at
/// the bottom.
pub proof fn law_tile_leaves_its_monitor<H: Host>(
    mon: MonitorView<H>,
    workspace: int,
    place: Place<int>,
)
    requires
        mon.wf(),
        0 <= workspace < mon.workspaces.len(),
        mon.workspaces[workspace].valid(place),
    ensures
        mon.without(workspace, place).output == mon.output,
        ({
            let left = mon.workspaces[workspace].without(place);
            let goes = left.columns.len() == 0 && left.floating.len() == 0 && !left.is_named
                && workspace != mon.active_workspace_idx && workspace + 1 != mon.workspaces.len();
            &&& goes ==> mon.without(workspace, place).workspaces == mon.workspaces.remove(
                workspace,
            )
            &&& !goes ==> mon.without(workspace, place).workspaces == mon.workspaces.update(
                workspace,
                left,
            ) && mon.without(workspace, place).active_workspace_idx == mon.active_workspace_idx
        }),
        workspace != mon.active_workspace_idx ==> mon.without(workspace, place).workspaces[mon.without(
            workspace,
            place,
        ).active_workspace_idx] == mon.workspaces[mon.active_workspace_idx],
        workspace == mon.active_workspace_idx ==> mon.without(workspace, place).workspaces[mon.without(
            workspace,
            place,
        ).active_workspace_idx] == mon.workspaces[workspace].without(place),
{
}

/// Minimizing takes one window out of one workspace. The other monitors, the windows that wait for
/// an output, the active monitor, a move of another window, the transitions and the hints stay.
pub proof fn law_minimizing_leaves_the_rest_alone<H: Host>(
    l: LayoutView<H>,
    slot: Slot<int>,
    place: Place<int>,
)
    requires
        l.wf(),
        l.occupied(slot, place),
    ensures
        l.with_minimized(slot, place) == (LayoutView {
            monitors: l.with_minimized(slot, place).monitors,
            orphans: l.with_minimized(slot, place).orphans,
            minimized_windows: l.with_minimized(slot, place).minimized_windows,
            ..l
        }),
        l.with_minimized(slot, place).minimized_windows.len() == l.minimized_windows.len() + 1,
        forall|i: int|
            0 <= i < l.minimized_windows.len() ==> #[trigger] l.with_minimized(
                slot,
                place,
            ).minimized_windows[i] == l.minimized_windows[i],
        slot matches Slot::OnMonitor { monitor, workspace } ==> {
            &&& l.with_minimized(slot, place).orphans == l.orphans
            &&& l.with_minimized(slot, place).monitors == l.monitors.update(
                monitor,
                l.monitors[monitor].without(workspace, place),
            )
        },
        slot matches Slot::Orphan { workspace } ==> {
            let left = l.orphans[workspace].without(place);
            &&& l.with_minimized(slot, place).monitors == l.monitors
            &&& left.columns.len() == 0 && left.floating.len() == 0 && !left.is_named
                ==> l.with_minimized(slot, place).orphans == l.orphans.remove(workspace)
            &&& left.columns.len() > 0 || left.floating.len() > 0 || left.is_named
                ==> l.with_minimized(slot, place).orphans == l.orphans.update(workspace, left)
        },
{
}

/// What is kept of a minimized window: the same live object with its sizes, its column settings,
/// its center and its maximization underneath fullscreen. It is neither active nor being moved,
/// resized, faded or hidden, it has no position, and its client is told at once.
pub proof fn law_minimized_entry<H: Host>(l: LayoutView<H>, slot: Slot<int>, place: Place<int>)
    requires
        l.wf(),
        l.occupied(slot, place),
    ensures
        ({
            let ws = l.workspace(slot);
            let tile = ws.tile(place);
            let entry = l.with_minimized(slot, place).minimized_windows.last();
            &&& entry.floating_center == tile.floating_center
            &&& place matches Place::Tiled { column, .. } ==> {
                &&& entry.maximized == ws.columns[column].is_pending_maximized
                &&& entry.removed.width == ws.columns[column].width
                &&& entry.removed.is_full_width == ws.columns[column].is_full_width
                &&& entry.removed.is_floating == tile.restore_to_floating
                &&& !entry.removed.tile.window.floating
            }
            &&& place is Floating ==> {
                &&& !entry.maximized
                &&& entry.removed.width == tile.natural_width
                &&& !entry.removed.is_full_width
                &&& entry.removed.is_floating
                &&& entry.removed.tile.window.floating
            }
            &&& entry.removed.tile == (Tile {
                window: entry.removed.tile.window,
                view_pos: None,
                minimize_animation_hidden: false,
                interactive_move_offset: None,
                move_x_animation: None,
                move_y_animation: None,
                alpha_animation: None,
                ..tile
            })
            &&& entry.removed.tile.window == (Window {
                activated: false,
                active_in_column: false,
                floating: entry.removed.tile.window.floating,
                minimized: true,
                interactive_resize: None,
                configure_due: true,
                ..tile.window
            })
        }),
{
}

/// A window that the pointer lets go of lands on the monitor under the pointer, or else on the
/// active one, and has the focus there.
pub proof fn law_move_ends_under_the_pointer<H: Host>(l: LayoutView<H>, id: WindowId, monitor: int)
    requires
        l.wf(),
        l.is_moving(id),
        0 <= monitor < l.monitors.len(),
        l.monitors[monitor].output.id == l.interactive_move.unwrap().output || (
        monitor == l.active_monitor_idx && forall|m: int|
            0 <= m < l.monitors.len() ==> (#[trigger] l.monitors[m]).output.id
                != l.interactive_move.unwrap().output),
    ensures
        l.dropped(id).interactive_move is None,
        l.dropped(id).active_monitor_idx == monitor,
        l.dropped(id).focus() == Some(id),
        l.dropped(id).monitors.len() == l.monitors.len(),
        forall|m: int|
            0 <= m < l.monitors.len() && m != monitor ==> #[trigger] l.dropped(id).monitors[m]
                == l.monitors[m],
        l.dropped(id).monitors[monitor] == l.monitors[monitor].with_added(
            l.interactive_move.unwrap().removed,
            ActivateWindow::Yes,
            l.next_workspace_id as WorkspaceId,
        ),
        l.dropped(id) == (LayoutView {
            monitors: l.dropped(id).monitors,
            active_monitor_idx: monitor,
            interactive_move: None,
            next_workspace_id: l.dropped(id).next_workspace_id,
            ..l
        }),
{
    let m = l.interactive_move.unwrap();
    let target = l.monitor_for(m.output);
    if l.shows(monitor, m.output) {
        lemma_monitor_for(l, m.output, monitor);
    } else {
        assert forall|k: int| !l.shows(k, m.output) by {
            if l.shows(k, m.output) {
                assert(l.monitors[k].output.id != m.output);
            }
        }
    }
    assert(target == monitor);
    let mon = l.monitors[monitor];
    let active = mon.active_workspace();
    assert(mon.wf());
    assert(active.wf());
    lemma_added_wf(active, m.removed, true);
}

/// While no output is connected, a window that the pointer lets go of joins the first workspace.
pub proof fn law_move_ends_without_outputs<H: Host>(l: LayoutView<H>, id: WindowId)
    requires
        l.wf(),
        l.is_moving(id),
        l.monitors.len() == 0,
    ensures
        l.dropped(id).interactive_move is None,
        l.dropped(id).monitors.len() == 0,
        l.dropped(id).orphans.len() > 0,
        l.dropped(id).orphans[0].focus() == Some(id),
        forall|w: int|
            0 < w < l.orphans.len() ==> #[trigger] l.dropped(id).orphans[w] == l.orphans[w],
        l.orphans.len() > 0 ==> l.dropped(id).orphans == l.orphans.update(
            0,
            l.orphans[0].with_added(l.interactive_move.unwrap().removed, true),
        ),
        l.dropped(id) == (LayoutView {
            orphans: l.dropped(id).orphans,
            interactive_move: None,
            next_workspace_id: l.dropped(id).next_workspace_id,
            ..l
        }),
{
    let m = l.interactive_move.unwrap();
    let fresh = WorkspaceView::<H>::empty(l.next_workspace_id as WorkspaceId);
    lemma_empty::<H>(fresh.id, Key::Minimized);
    let first = if l.orphans.len() == 0 {
        fresh
    } else {
        l.orphans[0]
    };
    assert(first.wf());
    lemma_added_wf(first, m.removed, true);
}

/// A window that the pointer does not hold stays where it is when its move is ended.
pub proof fn law_no_move_to_end<H: Host>(l: LayoutView<H>, id: WindowId)
    requires
        l.interactive_move matches Some(m) ==> m.removed.tile.window.id != id,
    ensures
        l.dropped(id) == l,
{
}

} // verus!
