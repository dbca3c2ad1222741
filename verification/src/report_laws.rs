//! What is reported of managed windows, and in which order.

use vstd::prelude::*;

use crate::layout::{LayoutView, Slot};
use crate::spots::{lemma_spots, Spot};
use crate::types::{Host, OutputId, SurfaceId, WindowId};
use crate::workspace::Place;

verus! {

/// A window in a workspace is reported with the output of its monitor, if it has one, and with
/// its workspace. A tiled window has a column and a row, counted from one; a floating window has
/// the position that was found for it.
pub proof fn law_windows_in_workspaces_are_somewhere<H: Host>(
    l: LayoutView<H>,
    slot: Slot<int>,
    place: Place<int>,
)
    requires
        l.occupied(slot, place),
    ensures
        ({
            let spot = Spot::Held { slot, place };
            let tile = l.workspace(slot).tile(place);
            let report = l.layout_of(spot);
            &&& l.spots().contains(spot)
            &&& l.tile(spot) == tile
            &&& slot matches Slot::OnMonitor { monitor, workspace } ==> {
                &&& l.output_of(spot) == Some(l.monitors[monitor].output.id)
                &&& l.workspace_of(spot) == Some(l.monitors[monitor].workspaces[workspace].id)
            }
            &&& slot matches Slot::Orphan { workspace } ==> {
                &&& l.output_of(spot) is None
                &&& l.workspace_of(spot) == Some(l.orphans[workspace].id)
            }
            &&& place matches Place::Tiled { column, row } ==> {
                &&& report.pos_in_scrolling_layout == Some(
                    ((column + 1) as usize, (row + 1) as usize),
                )
                &&& report.tile_pos_in_workspace_view is None
            }
            &&& place is Floating ==> {
                &&& report.pos_in_scrolling_layout is None
                &&& report.tile_pos_in_workspace_view == tile.view_pos
            }
            &&& report.tile_size == tile.tile_size
            &&& report.window_size == tile.window.size
        }),
{
    lemma_spots(l);
    assert(l.valid(Spot::Held { slot, place }));
}

/// A window under the pointer is reported with the output there and without a place.
pub proof fn law_moving_window_is_reported<H: Host>(l: LayoutView<H>)
    requires
        l.interactive_move is Some,
    ensures
        l.spots().contains(Spot::Moving),
        l.spots()[0] == Spot::<int>::Moving,
        l.tile(Spot::Moving) == l.interactive_move.unwrap().removed.tile,
        l.output_of(Spot::Moving) == Some(l.interactive_move.unwrap().output),
        l.workspace_of(Spot::Moving) is None,
        l.layout_of(Spot::Moving).pos_in_scrolling_layout is None,
        l.layout_of(Spot::Moving).tile_pos_in_workspace_view is None,
        l.layout_of(Spot::Moving).tile_size
            == l.interactive_move.unwrap().removed.tile.tile_size,
        l.layout_of(Spot::Moving).window_size
            == l.interactive_move.unwrap().removed.tile.window.size,
{
    lemma_spots(l);
    assert(l.valid(Spot::Moving));
    assert(l.spots()[0] == Spot::<int>::Moving);
}

/// Minimized windows are reported last, in the order of the queue.
pub proof fn law_minimized_windows_are_reported_last<H: Host>(l: LayoutView<H>, index: int)
    requires
        0 <= index < l.minimized_windows.len(),
    ensures
        l.spots().len() >= l.minimized_windows.len(),
        l.spots()[l.spots().len() - l.minimized_windows.len() + index] == (Spot::<
            int,
        >::Minimized { index }),
        l.tile(Spot::Minimized { index }) == l.minimized_windows[index].removed.tile,
{
}

/// Exactly the windows are reported that the layout owns: under the pointer, in a workspace or
/// minimized.
pub proof fn law_reports_are_of_owned_windows<H: Host>(l: LayoutView<H>, id: WindowId)
    ensures
        l.manages(id) <==> {
            ||| l.interactive_move matches Some(m) && m.removed.tile.window.id == id
            ||| exists|slot: Slot<int>, place: Place<int>| #[trigger]
                l.occupied(slot, place) && l.workspace(slot).tile(place).window.id == id
            ||| exists|i: int|
                0 <= i < l.minimized_windows.len() && (
                #[trigger] l.minimized_windows[i]).removed.tile.window.id == id
        },
{
    if l.manages(id) {
        let spot = choose|spot: Spot<int>|
            l.valid(spot) && (#[trigger] l.tile(spot)).window.id == id;
        match spot {
            Spot::Moving => {},
            Spot::Held { slot, place } => {
                assert(l.occupied(slot, place));
            },
            Spot::Minimized { index } => {
                assert(l.minimized_windows[index].removed.tile.window.id == id);
            },
        }
    }
    if l.interactive_move matches Some(m) && m.removed.tile.window.id == id {
        assert(l.valid(Spot::Moving) && l.tile(Spot::Moving).window.id == id);
    }
    if exists|slot: Slot<int>, place: Place<int>| #[trigger]
        l.occupied(slot, place) && l.workspace(slot).tile(place).window.id == id {
        let (slot, place) = choose|slot: Slot<int>, place: Place<int>| #[trigger]
            l.occupied(slot, place) && l.workspace(slot).tile(place).window.id == id;
        let spot = Spot::Held { slot, place };
        assert(l.valid(spot) && l.tile(spot).window.id == id);
    }
    if exists|i: int|
        0 <= i < l.minimized_windows.len() && (
        #[trigger] l.minimized_windows[i]).removed.tile.window.id == id {
        let i = choose|i: int|
            0 <= i < l.minimized_windows.len() && (
            #[trigger] l.minimized_windows[i]).removed.tile.window.id == id;
        let spot = Spot::Minimized { index: i };
        assert(l.valid(spot) && l.tile(spot).window.id == id);
    }
}

/// A window takes part in the ordinary layout if the pointer or a workspace holds it, and is
/// minimized if the queue does.
pub proof fn law_membership<H: Host>(l: LayoutView<H>, id: WindowId)
    ensures
        l.lays_out(id) <==> {
            ||| l.interactive_move matches Some(m) && m.removed.tile.window.id == id
            ||| exists|slot: Slot<int>, place: Place<int>| #[trigger]
                l.occupied(slot, place) && l.workspace(slot).tile(place).window.id == id
        },
        l.minimized(id) <==> exists|i: int|
            0 <= i < l.minimized_windows.len() && (
            #[trigger] l.minimized_windows[i]).removed.tile.window.id == id,
{
    if l.holds(id) {
        let (slot, place) = choose|slot: Slot<int>, place: Place<int>| l.holds_at(slot, place, id);
        assert(l.occupied(slot, place));
    }
    if exists|slot: Slot<int>, place: Place<int>| #[trigger]
        l.occupied(slot, place) && l.workspace(slot).tile(place).window.id == id {
        let (slot, place) = choose|slot: Slot<int>, place: Place<int>| #[trigger]
            l.occupied(slot, place) && l.workspace(slot).tile(place).window.id == id;
        assert(l.holds_at(slot, place, id));
    }
    if l.minimized(id) {
        let i = choose|i: int| l.minimized_at(i, id);
        assert(l.minimized_windows[i].removed.tile.window.id == id);
    }
    if exists|i: int|
        0 <= i < l.minimized_windows.len() && (
        #[trigger] l.minimized_windows[i]).removed.tile.window.id == id {
        let i = choose|i: int|
            0 <= i < l.minimized_windows.len() && (
            #[trigger] l.minimized_windows[i]).removed.tile.window.id == id;
        assert(l.minimized_at(i, id));
    }
}

/// A window that is reported with a monitor is on the output that this monitor shows.
pub proof fn law_reported_monitor<H: Host>(l: LayoutView<H>, spot: Spot<int>, monitor: int)
    requires
        l.valid(spot),
    ensures
        l.home(spot, monitor) <==> {
            &&& 0 <= monitor < l.monitors.len()
            &&& l.output_of(spot) == Some(l.monitors[monitor].output.id)
        },
        spot is Minimized ==> !l.home(spot, monitor),
        spot matches Spot::Held { slot: Slot::OnMonitor { monitor: m, .. }, .. } ==> l.home(
            spot,
            m,
        ),
        spot matches Spot::Held { slot: Slot::Orphan { .. }, .. } ==> !l.home(spot, monitor),
{
}

/// A window is found by its surface wherever it is, and a surface without a window finds none.
pub proof fn law_surfaces_find_their_windows<H: Host>(
    l: LayoutView<H>,
    surface: SurfaceId,
    spot: Spot<int>,
)
    requires
        l.valid(spot),
        l.tile(spot).window.surface == surface,
    ensures
        exists|i: int| #[trigger]
            l.first_with(surface, i) && l.tile(l.spots()[i]).window.surface == surface,
        exists|s: Spot<int>| #[trigger]
            l.changes_at(surface, s) && l.valid(s) && l.tile(s).window.surface == surface,
        spot is Minimized ==> forall|s: Spot<int>| #[trigger]
            l.changes_at(surface, s) ==> s is Minimized,
{
    lemma_spots(l);
    assert(l.spots().contains(spot));
    let k = choose|k: int| 0 <= k < l.spots().len() && l.spots()[k] == spot;
    let i = lemma_first(l, surface, k);
    if exists|j: int|
        0 <= j < l.minimized_windows.len() && (
        #[trigger] l.minimized_windows[j]).removed.tile.window.surface == surface {
        let j = choose|j: int|
            0 <= j < l.minimized_windows.len() && (
            #[trigger] l.minimized_windows[j]).removed.tile.window.surface == surface;
        let index = lemma_first_minimized(l, surface, j);
        let found = Spot::<int>::Minimized { index };
        assert(l.changes_at(surface, found) && l.valid(found) && l.tile(found).window.surface
            == surface);
    } else {
        assert forall|index: int| !l.first_minimized_with(surface, index) by {
            if l.first_minimized_with(surface, index) {
                assert(l.minimized_windows[index].removed.tile.window.surface == surface);
            }
        }
        let found = l.spots()[i];
        assert(l.first_with(surface, i) && found == l.spots()[i]);
        assert(l.valid(found));
        assert(l.changes_at(surface, found) && l.valid(found) && l.tile(found).window.surface
            == surface);
    }
    if let Spot::Minimized { index } = spot {
        assert(l.minimized_windows[index].removed.tile.window.surface == surface);
        let first = lemma_first_minimized(l, surface, index);
        assert forall|s: Spot<int>| #[trigger] l.changes_at(surface, s) implies s is Minimized by {
            assert(l.first_minimized_with(surface, first));
        }
    }
}

/// Of windows that share a surface the first in the order of reports is found, and the first
/// minimized one is changed, or else the first of all.
pub proof fn law_shared_surfaces<H: Host>(l: LayoutView<H>, surface: SurfaceId, i: int)
    ensures
        l.first_with(surface, i) <==> {
            &&& 0 <= i < l.spots().len()
            &&& l.tile(l.spots()[i]).window.surface == surface
            &&& forall|j: int|
                0 <= j < i ==> l.tile(#[trigger] l.spots()[j]).window.surface != surface
        },
        l.first_minimized_with(surface, i) <==> {
            &&& 0 <= i < l.minimized_windows.len()
            &&& l.minimized_windows[i].removed.tile.window.surface == surface
            &&& forall|j: int|
                0 <= j < i ==> (#[trigger] l.minimized_windows[j]).removed.tile.window.surface
                    != surface
        },
        l.first_minimized_with(surface, i) ==> l.changes_at(
            surface,
            Spot::Minimized { index: i },
        ),
        l.first_with(surface, i) && (forall|j: int|
            0 <= j < l.minimized_windows.len() ==> (
            #[trigger] l.minimized_windows[j]).removed.tile.window.surface != surface)
            ==> l.changes_at(surface, l.spots()[i]),
{
    if l.first_with(surface, i) && (forall|j: int|
        0 <= j < l.minimized_windows.len() ==> (
        #[trigger] l.minimized_windows[j]).removed.tile.window.surface != surface) {
        assert forall|index: int| !l.first_minimized_with(surface, index) by {
            if l.first_minimized_with(surface, index) {
                assert(l.minimized_windows[index].removed.tile.window.surface == surface);
            }
        }
    }
}

/// The first of the spots with a surface.
proof fn lemma_first<H: Host>(l: LayoutView<H>, surface: SurfaceId, k: int) -> (i: int)
    requires
        0 <= k < l.spots().len(),
        l.tile(l.spots()[k]).window.surface == surface,
    ensures
        i <= k,
        l.first_with(surface, i),
    decreases k,
{
    if exists|j: int| 0 <= j < k && l.tile(#[trigger] l.spots()[j]).window.surface == surface {
        let j = choose|j: int|
            0 <= j < k && l.tile(#[trigger] l.spots()[j]).window.surface == surface;
        lemma_first(l, surface, j)
    } else {
        k
    }
}

/// The first of the minimized windows with a surface.
proof fn lemma_first_minimized<H: Host>(l: LayoutView<H>, surface: SurfaceId, k: int) -> (i: int)
    requires
        0 <= k < l.minimized_windows.len(),
        l.minimized_windows[k].removed.tile.window.surface == surface,
    ensures
        i <= k,
        l.first_minimized_with(surface, i),
    decreases k,
{
    if exists|j: int|
        0 <= j < k && (#[trigger] l.minimized_windows[j]).removed.tile.window.surface == surface {
        let j = choose|j: int|
            0 <= j < k && (#[trigger] l.minimized_windows[j]).removed.tile.window.surface
                == surface;
        lemma_first_minimized(l, surface, j)
    } else {
        k
    }
}

/// The focused window is the active one of the current workspace of the active monitor: the active
/// floating window, or the active tile of the active column.
pub proof fn law_focused_window<H: Host>(l: LayoutView<H>)
    requires
        l.wf(),
    ensures
        l.monitors.len() == 0 ==> l.focus() is None,
        l.monitors.len() > 0 ==> {
            let mon = l.monitors[l.active_monitor_idx];
            let ws = mon.workspaces[mon.active_workspace_idx];
            &&& ws.floating_is_active ==> l.focus() == ws.active_floating && l.focus() is Some
            &&& !ws.floating_is_active && ws.columns.len() > 0 ==> l.focus() == Some(
                ws.columns[ws.active_column_idx].tiles[ws.columns[ws.active_column_idx].active_tile_idx].window.id,
            )
            &&& ws.columns.len() == 0 && ws.floating.len() == 0 ==> l.focus() is None
        },
{
    if l.monitors.len() > 0 {
        let mon = l.monitors[l.active_monitor_idx];
        assert(mon.wf());
        assert(mon.workspaces[mon.active_workspace_idx].wf());
    }
}

/// The monitor that shows an output is found by it.
pub proof fn law_outputs_are_shown<H: Host>(l: LayoutView<H>, monitor: int, output: OutputId)
    ensures
        l.shows(monitor, output) <==> 0 <= monitor < l.monitors.len()
            && l.monitors[monitor].output.id == output,
{
}

} // verus!
