//! What holds of the layout as a whole.

use vstd::prelude::*;

use crate::layout::{lemma_still_wf, minimized_tiles, LayoutView, Slot};
use crate::minimized::{
    lemma_dropped_holds, lemma_minimized, lemma_restored, lemma_returned_holds,
    MinimizedWindow,
};
use crate::monitor::lemma_monitor_added;
use crate::conceal::{lemma_concealed, lemma_concealed_tile};
use crate::minimize_animation::lemma_output_cancelled;
use crate::outputs::{lemma_monitor_removed, lemma_monitors_kept};
use crate::ownership::{
    count, fits, lemma_count_at, lemma_count_unique, lemma_count_witness, one, Key,
};
use crate::placement::{
    lemma_dropped, lemma_monitor_for, lemma_occupied_counts, lemma_slot_unique, lemma_tiles_split,
    lemma_without,
};
use crate::retile::{lemma_retiled, lemma_retiled_count, lemma_retiled_shaped, lemma_with_tiles};
use crate::sizing::Request;
use crate::spots::{lemma_spots, Spot};
use crate::tile::Tile;
use crate::types::{
    ActivateWindow, Host, OutputId, SizingMode, SurfaceId, WindowId, WorkspaceId,
};
use crate::windows::{lemma_manages, lemma_spot_removed};
use crate::workspace::{lemma_added_wf, lemma_empty, Place, WorkspaceView};

verus! {

/// Minimizing neither loses, duplicates nor exchanges a window: of every live object there are as
/// many afterwards as before.
pub proof fn law_minimizing_keeps_every_object<H: Host>(
    l: LayoutView<H>,
    id: WindowId,
    slot: Slot<int>,
    place: Place<int>,
    object: (WindowId, SurfaceId, H::Handle),
)
    requires
        l.wf(),
        l.dropped(id).holds_at(slot, place, id),
    ensures
        count(
            l.dropped(id).with_minimized(slot, place).tiles(),
            Key::Object(object.0, object.1, object.2),
        ) == count(l.tiles(), Key::Object(object.0, object.1, object.2)),
{
    lemma_minimized(l, id, slot, place);
}

/// Restoring neither loses, duplicates nor exchanges a window.
pub proof fn law_restoring_keeps_every_object<H: Host>(
    l: LayoutView<H>,
    monitor: int,
    index: int,
    activate: ActivateWindow,
    object: (WindowId, SurfaceId, H::Handle),
)
    requires
        l.wf(),
        0 <= monitor < l.monitors.len(),
        0 <= index < l.minimized_windows.len(),
    ensures
        count(
            l.with_restored(monitor, index, activate).tiles(),
            Key::Object(object.0, object.1, object.2),
        ) == count(l.tiles(), Key::Object(object.0, object.1, object.2)),
{
    lemma_restored(l, monitor, index, activate);
}

/// A window is in the ordinary layout or minimized, never both.
pub proof fn law_minimized_windows_are_not_laid_out<H: Host>(l: LayoutView<H>, id: WindowId)
    requires
        l.wf(),
    ensures
        !(l.lays_out(id) && l.minimized(id)),
{
    if l.lays_out(id) && l.minimized(id) {
        let key = Key::<H>::Id(id);
        lemma_tiles_split(l, key);
        lemma_tiles_split(l.dropped(id), key);
        lemma_dropped_holds(l, id);
        lemma_dropped(l, id, key);
        let d = l.dropped(id);
        let (slot, place) = choose|slot: Slot<int>, place: Place<int>| d.holds_at(slot, place, id);
        lemma_occupied_counts(d, slot, place, key);
        let index = choose|index: int| l.minimized_at(index, id);
        let tiles = minimized_tiles(l.minimized_windows);
        assert(tiles[index].window.id == id);
        lemma_count_at(tiles, index, key);
        assert(count(l.tiles(), key) <= 1);
    }
}

/// A minimized window stays managed, but it has left the ordinary layout: no workspace holds it
/// and it does not have the focus.
pub proof fn law_minimizing_hides<H: Host>(
    l: LayoutView<H>,
    id: WindowId,
    slot: Slot<int>,
    place: Place<int>,
)
    requires
        l.wf(),
        l.dropped(id).holds_at(slot, place, id),
    ensures
        l.dropped(id).with_minimized(slot, place).minimized(id),
        l.dropped(id).with_minimized(slot, place).manages(id),
        !l.dropped(id).with_minimized(slot, place).lays_out(id),
        l.dropped(id).with_minimized(slot, place).focus() != Some(id),
{
    let after = l.dropped(id).with_minimized(slot, place);
    lemma_minimized(l, id, slot, place);
    assert(after.minimized_at(after.minimized_windows.len() - 1, id));
    lemma_manages(after, id);
    law_minimized_windows_are_not_laid_out(after, id);
    if after.focus() == Some(id) {
        lemma_focus_holds(after);
    }
}

/// The focused window is in a workspace.
proof fn lemma_focus_holds<H: Host>(l: LayoutView<H>)
    requires
        l.wf(),
        l.focus() is Some,
    ensures
        l.holds(l.focus().unwrap()),
{
    let id = l.focus().unwrap();
    let mon = l.monitors[l.active_monitor_idx];
    assert(mon.wf());
    let ws = mon.active_workspace();
    assert(ws.wf());
    let slot = Slot::OnMonitor {
        monitor: l.active_monitor_idx,
        workspace: mon.active_workspace_idx,
    };
    let place = if ws.floating_is_active {
        let index = choose|i: int|
            0 <= i < ws.floating.len() && (#[trigger] ws.floating[i]).window.id == id;
        Place::Floating { index }
    } else {
        let column = ws.active_column_idx;
        assert(ws.columns[column].wf());
        Place::Tiled { column, row: ws.columns[column].active_tile_idx }
    };
    assert(l.holds_at(slot, place, id));
}

/// Where a restored window goes: to the current workspace of the destination, on top of the
/// floating windows or into a column of its own, right of the active one. It is the same live
/// object in the same size, with the sizing mode that was last asked for.
pub proof fn law_restored_window<H: Host>(
    l: LayoutView<H>,
    monitor: int,
    index: int,
    activate: ActivateWindow,
) -> (place: Place<int>)
    requires
        l.wf(),
        0 <= monitor < l.monitors.len(),
        0 <= index < l.minimized_windows.len(),
    ensures
        ({
            let entry = l.minimized_windows[index];
            let before = entry.removed.tile;
            let after = l.with_restored(monitor, index, activate);
            let slot = Slot::OnMonitor {
                monitor,
                workspace: l.monitors[monitor].active_workspace_idx,
            };
            let tile = after.workspace(slot).tile(place);
            &&& place == l.monitors[monitor].active_workspace().place_for(
                entry.returning(l.clock),
            )
            &&& after.holds_at(slot, place, before.window.id)
            &&& after.monitors[monitor].active_workspace_idx
                == l.monitors[monitor].active_workspace_idx
            &&& tile.window.same_object(before.window)
            &&& tile.window.size == before.window.size
            &&& tile.window.pending_sizing_mode == before.window.pending_sizing_mode
            &&& !tile.window.minimized
            &&& !tile.minimize_animation_hidden
            &&& tile.floating_window_size == before.floating_window_size
            &&& tile.floating_center == entry.floating_center
            &&& tile.restore_to_floating == entry.removed.is_floating
            &&& after.workspace(slot).maximized_at(place) == entry.maximized
            &&& place is Floating <==> entry.removed.is_floating
                && before.window.pending_sizing_mode == SizingMode::Normal
            &&& place is Tiled ==> after.workspace(slot).columns[place->column].tiles.len() == 1
        }),
{
    let entry = l.minimized_windows[index];
    assert(entry.wf());
    let removed = entry.returning(l.clock);
    let mon = l.monitors[monitor];
    let place = mon.active_workspace().place_for(removed);
    let returned = l.with_returned(monitor, index, activate);
    lemma_returned_holds(l, monitor, index, activate);
    lemma_monitor_added(mon, removed, activate, l.next_workspace_id as WorkspaceId, Key::Minimized);
    assert(returned.monitors[monitor].active_workspace() == mon.filled(removed, activate));
    assert(mon.wf());
    assert(mon.active_workspace().wf());
    place
}

/// Minimizing and restoring again brings the same live object back, in its size, with its
/// sizing mode and its maximization underneath fullscreen. A floating window floats again, at its
/// remembered center.
pub proof fn law_round_trip<H: Host>(
    l: LayoutView<H>,
    id: WindowId,
    slot: Slot<int>,
    place: Place<int>,
    monitor: int,
    activate: ActivateWindow,
) -> (new_place: Place<int>)
    requires
        l.wf(),
        l.dropped(id).holds_at(slot, place, id),
        0 <= monitor < l.monitors.len(),
    ensures
        ({
            let dropped = l.dropped(id);
            let minimized = dropped.with_minimized(slot, place);
            let last = minimized.minimized_windows.len() - 1;
            let restored = minimized.with_restored(monitor, last, activate);
            let new_slot = Slot::OnMonitor {
                monitor,
                workspace: minimized.monitors[monitor].active_workspace_idx,
            };
            let before = dropped.workspace(slot).tile(place);
            let after = restored.workspace(new_slot).tile(new_place);
            &&& restored.holds_at(new_slot, new_place, id)
            &&& after.window.same_object(before.window)
            &&& after.window.size == before.window.size
            &&& after.window.pending_sizing_mode == before.window.pending_sizing_mode
            &&& after.floating_window_size == before.floating_window_size
            &&& after.floating_center == before.floating_center
            &&& after.restore_to_floating == (place is Floating || before.restore_to_floating)
            &&& place is Floating ==> new_place is Floating
            &&& restored.workspace(new_slot).maximized_at(new_place) == dropped.workspace(
                slot,
            ).maximized_at(place)
            &&& restored.minimized_windows == l.minimized_windows
        }),
{
    let dropped = l.dropped(id);
    let minimized = dropped.with_minimized(slot, place);
    let last = minimized.minimized_windows.len() - 1;
    lemma_dropped(l, id, Key::Minimized);
    lemma_minimized(l, id, slot, place);
    let new_place = law_restored_window(minimized, monitor, last, activate);
    assert(minimized.minimized_windows.remove(last) =~= l.minimized_windows);
    if place is Floating {
        lemma_workspace_wf(dropped, slot);
        assert(dropped.workspace(slot).floating[place->index].window.pending_sizing_mode
            == SizingMode::Normal);
    }
    new_place
}

proof fn lemma_workspace_wf<H: Host>(l: LayoutView<H>, slot: Slot<int>)
    requires
        l.shaped(),
        l.has_slot(slot),
    ensures
        l.workspace(slot).wf(),
{
    match slot {
        Slot::OnMonitor { monitor, workspace } => {
            assert(l.monitors[monitor].wf());
            assert(l.monitors[monitor].workspaces[workspace].wf());
        },
        Slot::Orphan { workspace } => {
            assert(l.orphans[workspace].wf());
        },
    }
}

/// Without an identity, the most recently minimized window is restored.
pub proof fn law_last_minimized_comes_first<H: Host>(
    l: LayoutView<H>,
    id: WindowId,
    slot: Slot<int>,
    place: Place<int>,
    index: int,
)
    requires
        l.wf(),
        l.dropped(id).holds_at(slot, place, id),
        l.dropped(id).with_minimized(slot, place).chosen(None, index),
    ensures
        l.dropped(id).with_minimized(slot, place).minimized_at(index, id),
{
}

/// The order of the other minimized windows never changes: minimizing adds behind them, restoring
/// takes out one.
pub proof fn law_queue_order<H: Host>(
    l: LayoutView<H>,
    id: WindowId,
    slot: Slot<int>,
    place: Place<int>,
    monitor: int,
    index: int,
    activate: ActivateWindow,
)
    requires
        l.wf(),
    ensures
        l.dropped(id).holds_at(slot, place, id) ==> l.dropped(id).with_minimized(
            slot,
            place,
        ).minimized_windows.drop_last() == l.minimized_windows,
        0 <= monitor < l.monitors.len() && 0 <= index < l.minimized_windows.len()
            ==> l.with_restored(monitor, index, activate).minimized_windows
            == l.minimized_windows.remove(index),
{
    lemma_dropped(l, id, Key::Minimized);
    assert(l.dropped(id).with_minimized(slot, place).minimized_windows.drop_last()
        =~= l.minimized_windows);
}

/// The destination and the entry of a restore request are never in doubt.
pub proof fn law_restore_request_is_definite<H: Host>(
    l: LayoutView<H>,
    id: Option<WindowId>,
    output: Option<OutputId>,
    monitors: (int, int),
    indices: (int, int),
)
    requires
        l.wf(),
    ensures
        l.destination(output, monitors.0) && l.destination(output, monitors.1) ==> monitors.0
            == monitors.1,
        l.chosen(id, indices.0) && l.chosen(id, indices.1) ==> indices.0 == indices.1,
{
    if l.destination(output, monitors.0) && l.destination(output, monitors.1) {
        if let Some(output) = output {
            lemma_monitor_for(l, output, monitors.0);
            lemma_monitor_for(l, output, monitors.1);
        }
    }
    if l.chosen(id, indices.0) && l.chosen(id, indices.1) {
        if let Some(id) = id {
            let key = Key::<H>::Id(id);
            lemma_tiles_split(l, key);
            assert(count(l.tiles(), key) <= 1);
            lemma_count_unique(
                minimized_tiles(l.minimized_windows),
                indices.0,
                indices.1,
                key,
            );
        }
    }
}

/// The place of a window that is to be minimized is never in doubt.
pub proof fn law_window_has_one_place<H: Host>(
    l: LayoutView<H>,
    id: WindowId,
    a: (Slot<int>, Place<int>),
    b: (Slot<int>, Place<int>),
)
    requires
        l.wf(),
        l.holds_at(a.0, a.1, id),
        l.holds_at(b.0, b.1, id),
    ensures
        a == b,
{
    let key = Key::<H>::Id(id);
    lemma_tiles_split(l, key);
    assert(count(l.tiles(), key) <= 1);
    lemma_slot_unique(l, a.0, a.1, b.0, b.1, key);
}

/// A window that is restored with activation has the focus, and its output is the active one.
pub proof fn law_activated_restore_focuses<H: Host>(l: LayoutView<H>, monitor: int, index: int)
    requires
        l.wf(),
        0 <= monitor < l.monitors.len(),
        0 <= index < l.minimized_windows.len(),
    ensures
        l.with_restored(monitor, index, ActivateWindow::Yes).focus() == Some(
            l.minimized_windows[index].removed.tile.window.id,
        ),
        l.with_restored(monitor, index, ActivateWindow::Yes).active_monitor_idx == monitor,
{
    lemma_restored_focus(l, monitor, index, ActivateWindow::Yes);
}

/// Restoring without activation leaves the focus where it is.
pub proof fn law_quiet_restore_keeps_focus<H: Host>(l: LayoutView<H>, monitor: int, index: int)
    requires
        l.wf(),
        0 <= monitor < l.monitors.len(),
        0 <= index < l.minimized_windows.len(),
        l.focus() is Some,
    ensures
        l.with_restored(monitor, index, ActivateWindow::No).focus() == l.focus(),
        l.with_restored(monitor, index, ActivateWindow::No).active_monitor_idx
            == l.active_monitor_idx,
{
    lemma_restored_focus(l, monitor, index, ActivateWindow::No);
    let mon = l.monitors[monitor];
    assert(mon.wf());
    assert(mon.active_workspace().wf());
    assert(l.monitors[l.active_monitor_idx].wf());
}

/// Asking for maximization again does not move the focus of the workspace.
pub proof fn lemma_restored_focus<H: Host>(
    l: LayoutView<H>,
    monitor: int,
    index: int,
    activate: ActivateWindow,
)
    requires
        l.wf(),
        0 <= monitor < l.monitors.len(),
        0 <= index < l.minimized_windows.len(),
    ensures
        l.with_restored(monitor, index, activate).monitors[monitor].active_workspace().focus()
            == l.monitors[monitor].filled(
            l.minimized_windows[index].returning(l.clock),
            activate,
        ).focus(),
        activate == ActivateWindow::Yes ==> l.with_restored(
            monitor,
            index,
            activate,
        ).monitors[monitor].active_workspace().focus() == Some(
            l.minimized_windows[index].removed.tile.window.id,
        ),
{
    let entry = l.minimized_windows[index];
    assert(entry.wf());
    let removed = entry.returning(l.clock);
    let mon = l.monitors[monitor];
    let active = mon.active_workspace();
    assert(mon.wf());
    assert(active.wf());
    lemma_monitor_added(mon, removed, activate, l.next_workspace_id as WorkspaceId, Key::Minimized);
    lemma_added_wf(active, removed, activate.decided(!active.active_is_fullscreen()));
    let returned = l.with_returned(monitor, index, activate);
    let filled = mon.filled(removed, activate);
    assert(returned.monitors[monitor].active_workspace() == filled);
    if entry.maximized {
        let place = active.place_for(removed);
        let sized = filled.sized(place, Request::Maximized, true);
        assert(filled.wf());
        assert(forall|c: int| 0 <= c < filled.columns.len() ==> (#[trigger] filled.columns[c]).wf());
        assert(sized.focus() == filled.focus());
    }
}

/// A window that is closed while minimized is gone.
pub proof fn law_closing_a_minimized_window<H: Host>(l: LayoutView<H>, index: int)
    requires
        l.wf(),
        0 <= index < l.minimized_windows.len(),
    ensures
        !l.without_spot(Spot::Minimized { index }).manages(
            l.minimized_windows[index].removed.tile.window.id,
        ),
        l.without_spot(Spot::Minimized { index }).minimized_windows == l.minimized_windows.remove(
            index,
        ),
{
    let spot = Spot::Minimized { index };
    let id = l.minimized_windows[index].removed.tile.window.id;
    let after = l.without_spot(spot);
    let key = Key::<H>::Id(id);
    lemma_spot_removed(l, spot);
    assert(count(after.tiles(), key) + one(l.tile(spot), key) == count(l.tiles(), key));
    assert(count(l.tiles(), key) <= 1);
    lemma_manages(after, id);
}

/// Disconnecting an output loses no window, and leaves the minimized ones and their order alone.
pub proof fn law_output_removal_keeps_windows<H: Host>(
    l: LayoutView<H>,
    output: OutputId,
    monitor: int,
    object: (WindowId, SurfaceId, H::Handle),
    index: int,
)
    requires
        l.wf(),
        l.shows(monitor, output),
    ensures
        ({
            let after = l.with_output_cancelled(output).without_monitor(monitor);
            let key = Key::Object(object.0, object.1, object.2);
            &&& count(after.tiles(), key) == count(l.tiles(), key)
            &&& after.minimized_windows.len() == l.minimized_windows.len()
            &&& 0 <= index < l.minimized_windows.len()
                ==> after.minimized_windows[index].removed.tile.window
                == l.minimized_windows[index].removed.tile.window
        }),
{
    let cancelled = l.with_output_cancelled(output);
    lemma_output_cancelled(l, output);
    lemma_monitors_kept(l, output);
    lemma_monitor_removed(cancelled, monitor);
    let hidden = |tile: Tile<H>|
        tile.minimize_animation_hidden && !l.animates_on(tile.window.id, output);
    lemma_concealed(l, hidden);
    let concealed = l.with_concealment(hidden);
    assert(cancelled.tiles() == concealed.tiles());
    if 0 <= index < l.minimized_windows.len() {
        let spot = Spot::Minimized { index };
        lemma_spots(l);
        lemma_concealed_tile(l, hidden, spot);
    }
}

/// Minimized windows are reported without output, workspace or position, and with their size.
pub proof fn law_minimized_windows_are_nowhere<H: Host>(l: LayoutView<H>, index: int)
    requires
        0 <= index < l.minimized_windows.len(),
    ensures
        l.spots().contains(Spot::Minimized { index }),
        l.output_of(Spot::Minimized { index }) is None,
        l.workspace_of(Spot::Minimized { index }) is None,
        l.layout_of(Spot::Minimized { index }).pos_in_scrolling_layout is None,
        l.layout_of(Spot::Minimized { index }).tile_pos_in_workspace_view is None,
        l.layout_of(Spot::Minimized { index }).tile_size
            == l.minimized_windows[index].removed.tile.tile_size,
        l.layout_of(Spot::Minimized { index }).window_size
            == l.minimized_windows[index].removed.tile.window.size,
{
    lemma_spots(l);
    assert(l.valid(Spot::Minimized { index }));
}

/// Every managed window is reported exactly once.
pub proof fn law_every_window_is_reported_once<H: Host>(l: LayoutView<H>, id: WindowId)
    requires
        l.wf(),
    ensures
        l.manages(id) ==> exists|i: int| #[trigger]
            reports(l, i, id) && forall|j: int| #[trigger] reports(l, j, id) ==> j == i,
        !l.manages(id) ==> forall|i: int| !#[trigger] reports(l, i, id),
{
    let key = Key::<H>::Id(id);
    lemma_spots(l);
    lemma_manages(l, id);
    assert forall|i: int| #[trigger] reports(l, i, id) implies fits(key, l.tiles()[i])
        && l.manages(id) by {
        assert(l.tiles()[i] == l.tile(l.spots()[i]));
        assert(l.valid(l.spots()[i]));
    }
    if l.manages(id) {
        assert(count(l.tiles(), key) <= 1);
        let i = lemma_count_witness(l.tiles(), key);
        assert(l.tiles()[i] == l.tile(l.spots()[i]));
        assert(reports(l, i, id));
        assert forall|j: int| #[trigger] reports(l, j, id) implies j == i by {
            lemma_count_unique(l.tiles(), i, j, key);
        }
    }
}

/// The report with this number is about this window.
pub open spec fn reports<H: Host>(l: LayoutView<H>, i: int, id: WindowId) -> bool {
    0 <= i < l.spots().len() && l.tile(l.spots()[i]).window.id == id
}

/// A restored window is back in the ordinary layout and no longer minimized, so that restoring it
/// again finds nothing.
pub proof fn law_restoring_shows<H: Host>(
    l: LayoutView<H>,
    monitor: int,
    index: int,
    activate: ActivateWindow,
)
    requires
        l.wf(),
        0 <= monitor < l.monitors.len(),
        0 <= index < l.minimized_windows.len(),
    ensures
        l.with_restored(monitor, index, activate).lays_out(
            l.minimized_windows[index].removed.tile.window.id,
        ),
        !l.with_restored(monitor, index, activate).minimized(
            l.minimized_windows[index].removed.tile.window.id,
        ),
{
    let id = l.minimized_windows[index].removed.tile.window.id;
    let after = l.with_restored(monitor, index, activate);
    let place = law_restored_window(l, monitor, index, activate);
    let slot = Slot::OnMonitor { monitor, workspace: l.monitors[monitor].active_workspace_idx };
    assert(after.holds_at(slot, place, id));
    lemma_restored(l, monitor, index, activate);
    law_minimized_windows_are_not_laid_out(after, id);
}

/// Requests made while a window is minimized are what it is restored with: fullscreen wins while
/// it lasts, and afterwards maximization does as it was last asked for.
pub proof fn law_requests_while_minimized<H: Host>(entry: MinimizedWindow<H>, maximized: bool)
    ensures
        entry.fullscreened(true).removed.tile.window.pending_sizing_mode
            == SizingMode::Fullscreen,
        entry.fullscreened(true).maximized == entry.maximized,
        entry.fullscreened(true).maximized_as(
            maximized,
        ).removed.tile.window.pending_sizing_mode == SizingMode::Fullscreen,
        !entry.removed.tile.window.pending_windowed_fullscreen ==> entry.maximized_as(
            maximized,
        ).fullscreened(false).removed.tile.window.pending_sizing_mode == if maximized {
            SizingMode::Maximized
        } else {
            SizingMode::Normal
        },
        entry.maximized_as(maximized).maximized == maximized,
        entry.fullscreened(maximized).removed.tile.window.same_object(entry.removed.tile.window),
        entry.maximized_as(maximized).removed.tile.window.same_object(entry.removed.tile.window),
{
}

/// No workspace stays without windows, but for those that are named, active or at the bottom of
/// their monitor.
pub open spec fn tidy<H: Host>(l: LayoutView<H>) -> bool {
    &&& forall|m: int, w: int|
        0 <= m < l.monitors.len() && 0 <= w < l.monitors[m].workspaces.len() && (
        #[trigger] l.monitors[m].workspaces[w]).has_no_windows() ==> {
            ||| l.monitors[m].workspaces[w].is_named
            ||| w == l.monitors[m].active_workspace_idx
            ||| w == l.monitors[m].workspaces.len() - 1
        }
    &&& forall|w: int|
        0 <= w < l.orphans.len() && (#[trigger] l.orphans[w]).has_no_windows()
            ==> l.orphans[w].is_named
}

/// Every column holds a window.
pub open spec fn columns_filled<H: Host>(l: LayoutView<H>) -> bool {
    forall|slot: Slot<int>, c: int|
        l.has_slot(slot) && 0 <= c < l.workspace(slot).columns.len() ==> (
        #[trigger] l.workspace(slot).columns[c]).tiles.len() > 0
}

/// Minimizing leaves no placeholder, also of a window that the pointer held: neither an empty
/// column nor an empty workspace.
pub proof fn law_no_placeholders<H: Host>(
    l: LayoutView<H>,
    id: WindowId,
    slot: Slot<int>,
    place: Place<int>,
)
    requires
        l.wf(),
        l.dropped(id).holds_at(slot, place, id),
        tidy(l),
    ensures
        tidy(l.dropped(id).with_minimized(slot, place)),
        columns_filled(l.dropped(id).with_minimized(slot, place)),
{
    let after = l.dropped(id).with_minimized(slot, place);
    lemma_dropped(l, id, Key::Minimized);
    lemma_dropped_tidy(l, id);
    lemma_minimized_tidy(l.dropped(id), slot, place);
    lemma_minimized(l, id, slot, place);
    assert forall|slot: Slot<int>, c: int|
        after.has_slot(slot) && 0 <= c < after.workspace(slot).columns.len() implies (
    #[trigger] after.workspace(slot).columns[c]).tiles.len() > 0 by {
        lemma_workspace_wf(after, slot);
        assert(after.workspace(slot).columns[c].wf());
    }
}

/// The end of a move leaves no empty workspace behind.
proof fn lemma_dropped_tidy<H: Host>(l: LayoutView<H>, id: WindowId)
    requires
        l.wf(),
        tidy(l),
    ensures
        tidy(l.dropped(id)),
{
    if l.is_moving(id) {
        let after = l.dropped(id);
        let m = l.interactive_move.unwrap();
        if l.monitors.len() > 0 {
            let monitor = l.monitor_for(m.output);
            assert(0 <= monitor < l.monitors.len()) by {
                if exists|k: int| l.shows(k, m.output) {
                    assert(l.shows(monitor, m.output));
                }
            }
            let mon = l.monitors[monitor];
            let active = mon.active_workspace();
            assert(mon.wf());
            assert(active.wf());
            lemma_added_wf(
                active,
                m.removed,
                ActivateWindow::Yes.decided(!active.active_is_fullscreen()),
            );
            assert forall|k: int, w: int|
                0 <= k < after.monitors.len() && 0 <= w < after.monitors[k].workspaces.len() && (
                #[trigger] after.monitors[k].workspaces[w]).has_no_windows() implies {
                ||| after.monitors[k].workspaces[w].is_named
                ||| w == after.monitors[k].active_workspace_idx
                ||| w == after.monitors[k].workspaces.len() - 1
            } by {
                if k != monitor || (w != mon.active_workspace_idx && w < mon.workspaces.len()) {
                    assert(after.monitors[k].workspaces[w] == l.monitors[k].workspaces[w]);
                }
            }
        } else {
            let fresh = WorkspaceView::<H>::empty(l.next_workspace_id as WorkspaceId);
            lemma_empty::<H>(fresh.id, Key::Minimized);
            let first = if l.orphans.len() == 0 {
                fresh
            } else {
                l.orphans[0]
            };
            assert(first.wf());
            lemma_added_wf(first, m.removed, true);
            assert forall|w: int|
                0 <= w < after.orphans.len() && (
                #[trigger] after.orphans[w]).has_no_windows() implies after.orphans[w].is_named by {
                if w > 0 {
                    assert(after.orphans[w] == l.orphans[w]);
                }
            }
        }
    }
}

/// Minimizing the tile at a place leaves no empty workspace behind.
proof fn lemma_minimized_tidy<H: Host>(l: LayoutView<H>, slot: Slot<int>, place: Place<int>)
    requires
        l.shaped(),
        l.occupied(slot, place),
        tidy(l),
    ensures
        tidy(l.with_minimized(slot, place)),
{
    let after = l.with_minimized(slot, place);
    lemma_without(l, slot, place, Key::Minimized);
    assert(after.monitors == l.without(slot, place).monitors);
    assert forall|m: int, w: int|
        0 <= m < after.monitors.len() && 0 <= w < after.monitors[m].workspaces.len() && (
        #[trigger] after.monitors[m].workspaces[w]).has_no_windows() implies {
        ||| after.monitors[m].workspaces[w].is_named
        ||| w == after.monitors[m].active_workspace_idx
        ||| w == after.monitors[m].workspaces.len() - 1
    } by {
        let mon = l.monitors[m];
        if let Slot::OnMonitor { monitor, workspace } = slot {
            if m == monitor {
                let left = mon.workspaces[workspace].without(place);
                if left.has_no_windows() && !left.is_named && workspace
                    != mon.active_workspace_idx && workspace != mon.workspaces.len() - 1 {
                    let k = if w < workspace {
                        w
                    } else {
                        w + 1
                    };
                    assert(after.monitors[m].workspaces[w] == mon.workspaces[k]);
                } else if w != workspace {
                    assert(after.monitors[m].workspaces[w] == mon.workspaces[w]);
                }
            } else {
                assert(after.monitors[m].workspaces[w] == mon.workspaces[w]);
            }
        } else {
            assert(after.monitors[m].workspaces[w] == mon.workspaces[w]);
        }
    }
    assert forall|w: int|
        0 <= w < after.orphans.len() && (
        #[trigger] after.orphans[w]).has_no_windows() implies after.orphans[w].is_named by {
        if let Slot::Orphan { workspace } = slot {
            let left = l.orphans[workspace].without(place);
            if left.has_no_windows() && !left.is_named {
                let k = if w < workspace {
                    w
                } else {
                    w + 1
                };
                assert(after.orphans[w] == l.orphans[k]);
            } else if w != workspace {
                assert(after.orphans[w] == l.orphans[w]);
            }
        } else {
            assert(after.orphans[w] == l.orphans[w]);
        }
    }
}

/// Where no two windows share a surface, reading and changing reach the same window by it.
pub proof fn law_finders_agree<H: Host>(l: LayoutView<H>, surface: SurfaceId, spot: Spot<int>)
    requires
        forall|a: int, b: int|
            0 <= a < b < l.spots().len() && l.tile(#[trigger] l.spots()[a]).window.surface
                == surface ==> l.tile(#[trigger] l.spots()[b]).window.surface != surface,
    ensures
        l.changes_at(surface, spot) <==> exists|i: int| #[trigger]
            l.first_with(surface, i) && spot == l.spots()[i],
{
    lemma_spots(l);
    assert forall|index: int| #[trigger] l.first_minimized_with(surface, index) implies exists|
        i: int,
    | #[trigger]
        l.first_with(surface, i) && l.spots()[i] == (Spot::<int>::Minimized { index }) by {
        let here = Spot::<int>::Minimized { index };
        assert(l.valid(here));
        assert(l.spots().contains(here));
        let i = choose|i: int| 0 <= i < l.spots().len() && l.spots()[i] == here;
        assert(l.first_with(surface, i));
    }
    if exists|i: int| #[trigger] l.first_with(surface, i) && spot == l.spots()[i] {
        let i = choose|i: int| #[trigger] l.first_with(surface, i) && spot == l.spots()[i];
        assert(l.valid(spot));
        if let Spot::Minimized { index } = spot {
            assert forall|j: int| 0 <= j < index implies (
            #[trigger] l.minimized_windows[j]).removed.tile.window.surface != surface by {
                let other = Spot::<int>::Minimized { index: j };
                assert(l.valid(other));
                assert(l.spots().contains(other));
                let k = choose|k: int| 0 <= k < l.spots().len() && l.spots()[k] == other;
                if k < i {
                    assert(l.tile(l.spots()[k]).window.surface != surface);
                } else {
                    assert(l.tile(l.spots()[i]).window.surface == surface);
                    assert(l.tile(l.spots()[k]).window.surface != surface);
                }
            }
            assert(l.first_minimized_with(surface, index));
        } else {
            assert forall|index: int| !l.first_minimized_with(surface, index) by {
                if l.first_minimized_with(surface, index) {
                    let k = choose|k: int| #[trigger]
                        l.first_with(surface, k) && l.spots()[k] == (Spot::<int>::Minimized {
                            index,
                        });
                    if k < i {
                        assert(l.tile(l.spots()[k]).window.surface != surface);
                    } else if i < k {
                        assert(l.tile(l.spots()[i]).window.surface != surface);
                    }
                }
            }
        }
    }
}

/// A callback that keeps the identity, the minimized mark and the sizing mode of every window
/// keeps the layout well-formed.
pub proof fn law_harmless_callbacks<H: Host>(l: LayoutView<H>, tiles: Seq<Tile<H>>)
    requires
        l.wf(),
        tiles.len() == l.tiles().len(),
        forall|i: int|
            0 <= i < tiles.len() ==> {
                let before = l.tiles()[i];
                &&& (#[trigger] tiles[i]).window.keeps_place(before.window)
                &&& tiles[i].minimize_animation_hidden == before.minimize_animation_hidden
            },
    ensures
        l.with_tiles(tiles, tiles.len() as int).wf(),
{
    let n = tiles.len() as int;
    let after = l.with_tiles(tiles, n);
    lemma_retiled(l, tiles);
    lemma_with_tiles(l, tiles, n);
    lemma_spots(l);
    assert forall|key: Key<H>| !(key is Object) implies {
        &&& #[trigger] count(after.tiles(), key) == count(l.tiles(), key)
        &&& count(after.ordinary(), key) == count(l.ordinary(), key)
    } by {
        lemma_retiled_count(l, tiles, key);
    }
    lemma_retiled_shaped(l, tiles, n);
    assert(count(after.tiles(), Key::Minimized) >= 0);
    assert forall|spot: Spot<int>| #[trigger] l.valid(spot) implies {
        &&& after.tile(spot).window.keeps_place(l.tile(spot).window)
        &&& after.tile(spot).minimize_animation_hidden == l.tile(spot).minimize_animation_hidden
    } by {
        assert(l.spots().contains(spot));
        let k = choose|k: int| 0 <= k < l.spots().len() && l.spots()[k] == spot;
        assert(after.tile(l.spots()[k]) == tiles[k]);
        assert(l.tiles()[k] == l.tile(l.spots()[k]));
    }
    assert forall|i: int| 0 <= i < after.minimized_windows.len() implies (
    #[trigger] after.minimized_windows[i]).wf() by {
        assert(l.valid(Spot::Minimized { index: i }));
        assert(l.minimized_windows[i].wf());
    }
    if after.interactive_move is Some {
        assert(after.valid(Spot::Moving));
        assert(l.valid(Spot::Moving));
    }
    lemma_still_wf(l, after);
}

} // verus!
