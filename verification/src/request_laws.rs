//! What fullscreen and maximization requests do, on screen and while minimized.

use vstd::prelude::*;

use crate::column::ColumnView;
use crate::laws::law_restored_window;
use crate::layout::{LayoutView, Slot};
use crate::minimize_laws::{
    law_leaving_keeps_the_focus_of_others, law_tile_leaves_a_shared_column,
    law_tile_leaves_its_workspace,
};
use crate::minimized::{lemma_restored, MinimizedWindow};
use crate::ownership::Key;
use crate::requests::lemma_entry;
use crate::restore_laws::law_tile_enters_a_workspace;
use crate::sizing::{lemma_expelled, Request};
use crate::tile::{RemovedTile, Tile};
use crate::types::{ActivateWindow, ColumnDisplay, Host, SizeRequest, SizingMode};
use crate::window::Window;
use crate::workspace::{lemma_added_wf, lemma_without_wf, Place, WorkspaceView};

verus! {

/// A maximization request for a minimized window is remembered. Unless the window waits for
/// fullscreen, it is asked at once to be maximized, in its size, or to be normal again, in the size
/// in which it floats. Nothing is asked where nothing changes.
pub proof fn law_maximization_while_minimized<H: Host>(entry: MinimizedWindow<H>, maximized: bool)
    ensures
        ({
            let before = entry.removed.tile.window;
            let after = entry.maximized_as(maximized);
            let window = after.removed.tile.window;
            let mode = if maximized {
                SizingMode::Maximized
            } else {
                SizingMode::Normal
            };
            &&& after.maximized == maximized
            &&& after.floating_center == entry.floating_center
            &&& after.removed == (RemovedTile {
                tile: Tile { window, ..entry.removed.tile },
                ..entry.removed
            })
            &&& before.pending_sizing_mode == SizingMode::Fullscreen ==> window == before
            &&& before.pending_sizing_mode != SizingMode::Fullscreen ==> {
                &&& window.pending_sizing_mode == mode
                &&& before.pending_sizing_mode == mode ==> window == before
                &&& before.pending_sizing_mode != mode ==> window == (Window {
                    pending_sizing_mode: mode,
                    requested_size: Some(
                        SizeRequest {
                            size: if maximized || entry.removed.tile.floating_window_size is None {
                                before.size
                            } else {
                                entry.removed.tile.floating_window_size.unwrap()
                            },
                            animate: false,
                            transaction: None,
                        },
                    ),
                    ..before
                })
            }
        }),
{
}

/// A fullscreen request for a minimized window is asked for at once, in its size. When it is
/// withdrawn, the window leaves windowed fullscreen first; else it is asked to be maximized where
/// that is remembered, or normal in the size in which it floats. What is remembered of
/// maximization does not change.
pub proof fn law_fullscreen_while_minimized<H: Host>(entry: MinimizedWindow<H>, fullscreen: bool)
    ensures
        ({
            let before = entry.removed.tile.window;
            let after = entry.fullscreened(fullscreen);
            let window = after.removed.tile.window;
            let mode = if fullscreen {
                SizingMode::Fullscreen
            } else if entry.maximized {
                SizingMode::Maximized
            } else {
                SizingMode::Normal
            };
            &&& after.maximized == entry.maximized
            &&& after.floating_center == entry.floating_center
            &&& after.removed == (RemovedTile {
                tile: Tile { window, ..entry.removed.tile },
                ..entry.removed
            })
            &&& !fullscreen && before.pending_windowed_fullscreen ==> window == (Window {
                pending_windowed_fullscreen: false,
                ..before
            })
            &&& fullscreen || !before.pending_windowed_fullscreen ==> {
                &&& window.pending_sizing_mode == mode
                &&& before.pending_sizing_mode == mode ==> window == before
                &&& before.pending_sizing_mode != mode ==> window == (Window {
                    pending_sizing_mode: mode,
                    pending_windowed_fullscreen: false,
                    requested_size: Some(
                        SizeRequest {
                            size: if mode != SizingMode::Normal
                                || entry.removed.tile.floating_window_size is None {
                                before.size
                            } else {
                                entry.removed.tile.floating_window_size.unwrap()
                            },
                            animate: false,
                            transaction: None,
                        },
                    ),
                    ..before
                })
            }
        }),
{
}

/// A window comes back as it was asked for while it was minimized: maximized or normal, or
/// fullscreen with its maximization underneath.
pub proof fn law_requests_are_honored_on_restore<H: Host>(
    l: LayoutView<H>,
    index: int,
    wanted: bool,
    monitor: int,
    activate: ActivateWindow,
)
    requires
        l.wf(),
        0 <= monitor < l.monitors.len(),
        0 <= index < l.minimized_windows.len(),
    ensures
        ({
            let entry = l.minimized_windows[index];
            let id = entry.removed.tile.window.id;
            let w = l.monitors[monitor].active_workspace_idx;
            let maximizing = l.with_entry(index, entry.maximized_as(wanted));
            let ws = maximizing.with_restored(monitor, index, activate).monitors[monitor].workspaces[w];
            exists|place: Place<int>|
                {
                    &&& #[trigger] ws.holds_at(place, id)
                    &&& entry.removed.tile.window.pending_sizing_mode != SizingMode::Fullscreen
                        ==> ws.tile(place).window.pending_sizing_mode == if wanted {
                        SizingMode::Maximized
                    } else {
                        SizingMode::Normal
                    }
                    &&& entry.removed.tile.window.pending_sizing_mode == SizingMode::Fullscreen
                        ==> ws.tile(place).window.pending_sizing_mode == SizingMode::Fullscreen
                    &&& place is Tiled ==> ws.columns[place->column].is_pending_maximized == wanted
                    &&& wanted ==> place is Tiled
                }
        }),
        ({
            let entry = l.minimized_windows[index];
            let id = entry.removed.tile.window.id;
            let w = l.monitors[monitor].active_workspace_idx;
            let filling = l.with_entry(index, entry.fullscreened(true));
            let ws = filling.with_restored(monitor, index, activate).monitors[monitor].workspaces[w];
            exists|place: Place<int>|
                {
                    &&& #[trigger] ws.holds_at(place, id)
                    &&& place is Tiled
                    &&& ws.tile(place).window.pending_sizing_mode == SizingMode::Fullscreen
                    &&& ws.columns[place->column].is_pending_fullscreen
                    &&& ws.columns[place->column].is_pending_maximized == entry.maximized
                }
        }),
{
    let entry = l.minimized_windows[index];
    let w = l.monitors[monitor].active_workspace_idx;
    assert(entry.wf());
    let maximized = entry.maximized_as(wanted);
    let maximizing = l.with_entry(index, maximized);
    lemma_entry(l, index, maximized);
    let a = law_restored_window(maximizing, monitor, index, activate);
    let ws = maximizing.with_restored(monitor, index, activate).monitors[monitor].workspaces[w];
    assert(ws.holds_at(a, entry.removed.tile.window.id));
    let filled = entry.fullscreened(true);
    let filling = l.with_entry(index, filled);
    lemma_entry(l, index, filled);
    let b = law_restored_window(filling, monitor, index, activate);
    let after = filling.with_restored(monitor, index, activate);
    let other = after.monitors[monitor].workspaces[w];
    assert(other.holds_at(b, entry.removed.tile.window.id));
    lemma_restored(filling, monitor, index, activate);
    assert(after.monitors[monitor].wf());
    assert(other.wf());
    assert(other.columns[b->column].wf());
}

/// A request for a minimized window changes its entry and nothing else.
pub proof fn law_entry_changes_alone<H: Host>(
    l: LayoutView<H>,
    index: int,
    entry: MinimizedWindow<H>,
)
    requires
        0 <= index < l.minimized_windows.len(),
    ensures
        l.with_entry(index, entry) == (LayoutView {
            minimized_windows: l.with_entry(index, entry).minimized_windows,
            ..l
        }),
        l.with_entry(index, entry).minimized_windows.len() == l.minimized_windows.len(),
        l.with_entry(index, entry).minimized_windows[index] == entry,
        forall|i: int|
            0 <= i < l.minimized_windows.len() && i != index ==> #[trigger] l.with_entry(
                index,
                entry,
            ).minimized_windows[i] == l.minimized_windows[i],
{
}

/// Where a window that a request is made for ends up, and what it is asked for. `now` is its new
/// place.
pub open spec fn granted<H: Host>(
    ws: WorkspaceView<H>,
    after: WorkspaceView<H>,
    place: Place<int>,
    now: Place<int>,
    request: Request,
) -> bool {
    let mode = after.tile(now).window.pending_sizing_mode;
    &&& after.holds_at(now, ws.tile(place).window.id)
    &&& now matches Place::Tiled { column, .. } && match request {
        Request::Fullscreen => mode == SizingMode::Fullscreen
            && after.columns[column].is_pending_fullscreen,
        Request::Maximized => after.columns[column].is_pending_maximized && mode == if
            after.columns[column].is_pending_fullscreen {
            SizingMode::Fullscreen
        } else {
            SizingMode::Maximized
        },
    }
}

/// A fullscreen or maximization request that is made for a window in a workspace is granted: a
/// floating window enters the columns and remembers that it floated, one that shares an ordinary
/// column gets one of its own. Fullscreen covers maximization. The focus stays where it is.
#[verifier::rlimit(30)]
pub proof fn law_requests_are_granted<H: Host>(
    ws: WorkspaceView<H>,
    place: Place<int>,
    request: Request,
) -> (now: Place<int>)
    requires
        ws.wf(),
        ws.valid(place),
    ensures
        granted(ws, ws.sized(place, request, true), place, now, request),
        ws.sized(place, request, true).tile(now).window.same_object(ws.tile(place).window),
        ws.sized(place, request, true).tile(now).window.size == ws.tile(place).window.size,
        place matches Place::Floating { index } ==> {
            let after = ws.sized(place, request, true);
            let column = if ws.columns.len() == 0 {
                0
            } else {
                ws.active_column_idx + 1
            };
            &&& now == (Place::Tiled { column, row: 0 })
            &&& after.tile(now).restore_to_floating
            &&& after.columns.remove(column) == ws.columns
            &&& after.columns[column].tiles.len() == 1
            &&& after.columns[column].width == ws.tile(place).natural_width
            &&& !after.columns[column].is_full_width
            &&& after.columns[column].is_pending_fullscreen == (request == Request::Fullscreen)
            &&& after.columns[column].is_pending_maximized == (request == Request::Maximized)
            &&& after.floating == ws.floating.remove(index)
            &&& after.tile(now).floating_center == ws.tile(place).floating_center
            &&& after.tile(now).floating_window_size == ws.tile(place).floating_window_size
        },
        place matches Place::Tiled { column, row } ==> {
            &&& ws.sized(place, request, true).tile(now).restore_to_floating == (ws.tile(
                place,
            ).restore_to_floating && (ws.columns[column].is_pending_fullscreen
                || ws.columns[column].is_pending_maximized))
            &&& now == if ws.columns[column].tiles.len() > 1 && ws.columns[column].display
                == ColumnDisplay::Normal && !(match request {
                Request::Fullscreen => ws.columns[column].is_pending_fullscreen,
                Request::Maximized => ws.columns[column].is_pending_maximized,
            }) {
                Place::Tiled { column: column + 1, row: 0 }
            } else {
                place
            }
            &&& request == Request::Fullscreen ==> ws.sized(
                place,
                request,
                true,
            ).columns[now->column].is_pending_maximized == ws.columns[column].is_pending_maximized
            &&& request == Request::Maximized ==> ws.sized(
                place,
                request,
                true,
            ).columns[now->column].is_pending_fullscreen
                == ws.columns[column].is_pending_fullscreen
            &&& ws.sized(place, request, true).floating == ws.floating
            &&& now == place ==> ws.sized(place, request, true) == (WorkspaceView {
                columns: ws.columns.update(
                    column,
                    ws.sized(place, request, true).columns[column],
                ),
                ..ws
            })
        },
        ws.sized(place, request, true).focus() == ws.focus(),
{
    let after = ws.sized(place, request, true);
    match place {
        Place::Tiled { column, row } => {
            let c = ws.columns[column];
            assert(c.wf());
            assert(ws.columns[ws.active_column_idx].wf());
            if c.tiles.len() > 1 && c.display == ColumnDisplay::Normal && !(match request {
                Request::Fullscreen => c.is_pending_fullscreen,
                Request::Maximized => c.is_pending_maximized,
            }) {
                lemma_expelled(ws, column, row, Key::Minimized);
                let expelled = ws.expelled(column, row);
                assert(expelled.columns[column + 1].tiles =~= seq![c.tiles[row]]);
                assert(expelled.columns[expelled.active_column_idx].wf());
                Place::Tiled { column: column + 1, row: 0 }
            } else {
                place
            }
        },
        Place::Floating { index } => {
            let left = ws.without(place);
            let id = ws.tile(place).window.id;
            let removed = RemovedTile { is_floating: false, ..ws.removed(place) };
            let focused = ws.focus() == Some(id);
            lemma_without_wf(ws, place);
            law_tile_leaves_its_workspace(ws, place);
            law_tile_enters_a_workspace(left, removed, focused);
            lemma_added_wf(left, removed, focused);
            let added = left.with_added(removed, focused);
            let column = left.place_for(removed)->column;
            assert(added.columns[column].wf());
            assert(added.columns[added.active_column_idx].wf());
            if !focused {
                if ws.focus() is Some {
                    law_leaving_keeps_the_focus_of_others(ws, place, ws.focus().unwrap());
                } else {
                    assert(ws.columns.len() == 0);
                    assert(ws.floating_is_active);
                }
            }
            assert(added.focus() == ws.focus());
            assert(after.columns.remove(column) =~= added.columns.remove(column));
            Place::Tiled { column, row: 0 }
        },
    }
}

/// A request changes little about the tile of its window: what the window is asked for, and whether
/// it floats afterwards.
pub proof fn law_requests_change_little<H: Host>(
    ws: WorkspaceView<H>,
    place: Place<int>,
    request: Request,
)
    requires
        ws.wf(),
        ws.valid(place),
    ensures
        ({
            let before = ws.tile(place);
            let now = match place {
                Place::Tiled { column, row } => if ws.columns[column].tiles.len() > 1
                    && ws.columns[column].display == ColumnDisplay::Normal && !(match request {
                    Request::Fullscreen => ws.columns[column].is_pending_fullscreen,
                    Request::Maximized => ws.columns[column].is_pending_maximized,
                }) {
                    Place::Tiled { column: column + 1, row: 0 }
                } else {
                    place
                },
                Place::Floating { .. } => Place::Tiled {
                    column: if ws.columns.len() == 0 {
                        0
                    } else {
                        ws.active_column_idx + 1
                    },
                    row: 0,
                },
            };
            let tile = ws.sized(place, request, true).tile(now);
            &&& tile == (Tile {
                window: tile.window,
                restore_to_floating: tile.restore_to_floating,
                view_pos: tile.view_pos,
                ..before
            })
            &&& tile.window == (Window {
                requested_size: tile.window.requested_size,
                pending_sizing_mode: tile.window.pending_sizing_mode,
                pending_windowed_fullscreen: tile.window.pending_windowed_fullscreen,
                ..before.window
            })
            &&& tile.window.pending_sizing_mode != before.window.pending_sizing_mode
                ==> tile.window.requested_size is None
            &&& place is Floating ==> tile.view_pos is None
            &&& place is Tiled ==> tile.view_pos == before.view_pos
        }),
{
    match place {
        Place::Tiled { column, row } => {
            let c = ws.columns[column];
            assert(c.wf());
            if c.tiles.len() > 1 && c.display == ColumnDisplay::Normal {
                let expelled = ws.expelled(column, row);
                assert(expelled.columns[column + 1].tiles =~= seq![c.tiles[row]]);
            }
        },
        Place::Floating { index } => {
            let left = ws.without(place);
            let removed = RemovedTile { is_floating: false, ..ws.removed(place) };
            let focused = ws.focus() == Some(ws.tile(place).window.id);
            lemma_without_wf(ws, place);
            law_tile_leaves_its_workspace(ws, place);
            law_tile_enters_a_workspace(left, removed, focused);
        },
    }
}

/// In a column that several windows share as tabs, all of them follow a request for one.
pub proof fn law_tabs_follow_together<H: Host>(
    ws: WorkspaceView<H>,
    column: int,
    row: int,
    request: Request,
    other: int,
)
    requires
        ws.wf(),
        ws.valid(Place::Tiled { column, row }),
        ws.columns[column].display == ColumnDisplay::Tabbed,
        0 <= other < ws.columns[column].tiles.len(),
    ensures
        ({
            let c = ws.columns[column];
            let after = ws.sized(Place::Tiled { column, row }, request, true).columns[column];
            &&& after.tiles.len() == c.tiles.len()
            &&& after.tiles[other].window.same_object(c.tiles[other].window)
            &&& after.tiles[other].window.pending_sizing_mode
                == after.tiles[row].window.pending_sizing_mode
            &&& other != row ==> after.tiles[other].restore_to_floating
                == c.tiles[other].restore_to_floating
            &&& after.display == c.display
            &&& after.width == c.width
            &&& after.is_full_width == c.is_full_width
            &&& after.active_tile_idx == c.active_tile_idx
        }),
{
    assert(ws.columns[column].wf());
}

/// Making a request again changes nothing.
pub proof fn law_nothing_to_request<H: Host>(
    ws: WorkspaceView<H>,
    column: int,
    row: int,
    request: Request,
)
    requires
        ws.wf(),
        ws.valid(Place::Tiled { column, row }),
        match request {
            Request::Fullscreen => ws.columns[column].is_pending_fullscreen,
            Request::Maximized => ws.columns[column].is_pending_maximized,
        },
    ensures
        ws.sized(Place::Tiled { column, row }, request, true) == ws,
{
}

/// A request for a window in a workspace changes that workspace and nothing else.
pub proof fn law_requests_stay_in_their_workspace<H: Host>(
    l: LayoutView<H>,
    slot: Slot<int>,
    place: Place<int>,
    request: Request,
    on: bool,
    other: Slot<int>,
)
    requires
        l.occupied(slot, place),
        l.has_slot(other),
    ensures
        ({
            let after = l.with_sized(slot, place, request, on);
            &&& after.has_slot(other)
            &&& after.workspace(slot) == l.workspace(slot).sized(place, request, on)
            &&& other != slot ==> after.workspace(other) == l.workspace(other)
            &&& after == (LayoutView {
                monitors: after.monitors,
                orphans: after.orphans,
                ..l
            })
            &&& after.monitors.len() == l.monitors.len()
            &&& after.orphans.len() == l.orphans.len()
        }),
        forall|m: int|
            0 <= m < l.monitors.len() ==> (#[trigger] l.with_sized(
                slot,
                place,
                request,
                on,
            ).monitors[m]).output == l.monitors[m].output && l.with_sized(
                slot,
                place,
                request,
                on,
            ).monitors[m].active_workspace_idx == l.monitors[m].active_workspace_idx && l.with_sized(
                slot,
                place,
                request,
                on,
            ).monitors[m].workspaces.len() == l.monitors[m].workspaces.len(),
{
}

/// Withdrawing a request that was never made changes nothing.
pub proof fn law_nothing_to_withdraw<H: Host>(
    ws: WorkspaceView<H>,
    place: Place<int>,
    request: Request,
)
    requires
        ws.wf(),
        ws.valid(place),
        place matches Place::Tiled { column, .. } ==> match request {
            Request::Fullscreen => !ws.columns[column].is_pending_fullscreen,
            Request::Maximized => !ws.columns[column].is_pending_maximized,
        },
    ensures
        ws.sized(place, request, false) == ws,
{
    if let Place::Tiled { column, row } = place {
        assert(ws.columns[column].wf());
    }
}

/// A request that is withdrawn takes the window back: from fullscreen to the maximization that was
/// underneath, and else to its normal size, where a window that floated before floats again on top
/// of the others in the size in which it floats. A maximization that is withdrawn underneath
/// fullscreen is only forgotten. The focus stays where it is.
pub proof fn law_requests_are_withdrawn<H: Host>(
    ws: WorkspaceView<H>,
    column: int,
    row: int,
    request: Request,
) -> (now: Place<int>)
    requires
        ws.wf(),
        ws.valid(Place::Tiled { column, row }),
        match request {
            Request::Fullscreen => ws.columns[column].is_pending_fullscreen,
            Request::Maximized => ws.columns[column].is_pending_maximized,
        },
    ensures
        ({
            let c = ws.columns[column];
            let before = c.tiles[row];
            let after = ws.sized(Place::Tiled { column, row }, request, false);
            let window = after.tile(now).window;
            let keeps_fullscreen = request == Request::Maximized && c.is_pending_fullscreen;
            let keeps_maximized = request == Request::Fullscreen && c.is_pending_maximized;
            let floats = before.restore_to_floating && !keeps_fullscreen && !keeps_maximized;
            &&& after.holds_at(now, before.window.id)
            &&& window == (Window {
                requested_size: window.requested_size,
                pending_sizing_mode: window.pending_sizing_mode,
                pending_windowed_fullscreen: window.pending_windowed_fullscreen,
                ..before.window
            })
            &&& window.pending_sizing_mode == if keeps_fullscreen {
                SizingMode::Fullscreen
            } else if keeps_maximized {
                SizingMode::Maximized
            } else {
                SizingMode::Normal
            }
            &&& now == if floats {
                Place::Floating { index: 0 }
            } else {
                Place::Tiled { column, row }
            }
            &&& floats ==> {
                &&& window.requested_size == Some(
                    SizeRequest {
                        size: match before.floating_window_size {
                            Some(size) => size,
                            None => before.window.size,
                        },
                        animate: true,
                        transaction: None,
                    },
                )
                &&& after.tile(now) == (Tile {
                    window,
                    restore_to_floating: true,
                    view_pos: None,
                    move_x_animation: None,
                    move_y_animation: None,
                    ..before
                })
                &&& after.floating.remove(0) == ws.floating
                &&& after.columns == ws.without(Place::Tiled { column, row }).columns
            }
            &&& !floats ==> {
                &&& after == (WorkspaceView { columns: after.columns, ..ws })
                &&& after.columns == ws.columns.update(column, after.columns[column])
                &&& after.columns[column] == (ColumnView {
                    tiles: after.columns[column].tiles,
                    is_pending_fullscreen: keeps_fullscreen,
                    is_pending_maximized: keeps_maximized,
                    ..c
                })
                &&& after.columns[column].tiles == c.with_flags(
                    keeps_fullscreen,
                    keeps_maximized,
                ).tiles
            }
            &&& after.focus() == ws.focus()
        }),
{
    let place = Place::Tiled { column, row };
    let c = ws.columns[column];
    assert(c.wf());
    assert(ws.columns[ws.active_column_idx].wf());
    let before = c.tiles[row];
    let after = ws.sized(place, request, false);
    if ws.withdrawal_floats(column, row, request) {
        let left = ws.without(place);
        let id = before.window.id;
        let focused = ws.focus() == Some(id);
        let removed = RemovedTile {
            tile: Tile {
                window: before.window.requested(before.floating_request(), SizingMode::Normal),
                move_x_animation: None,
                move_y_animation: None,
                ..before
            },
            is_floating: true,
            ..ws.removed(place)
        };
        lemma_without_wf(ws, place);
        law_tile_leaves_its_workspace(ws, place);
        law_tile_enters_a_workspace(left, removed, focused);
        if !focused {
            assert(ws.focus() is Some);
            law_leaving_keeps_the_focus_of_others(ws, place, ws.focus().unwrap());
        }
        assert(after.floating.remove(0) =~= ws.floating);
        Place::Floating { index: 0 }
    } else {
        assert(after.columns =~= ws.columns.update(column, after.columns[column]));
        place
    }
}

/// A column that takes new flags asks all its windows for the mode that they stand for: fullscreen
/// before maximized before normal. It computes their sizes itself, and fullscreen ends windowed
/// fullscreen.
pub proof fn law_columns_are_followed<H: Host>(
    c: ColumnView<H>,
    fullscreen: bool,
    maximized: bool,
    row: int,
)
    requires
        0 <= row < c.tiles.len(),
    ensures
        ({
            let after = c.with_flags(fullscreen, maximized);
            let before = c.tiles[row].window;
            &&& after == (ColumnView {
                tiles: after.tiles,
                is_pending_fullscreen: fullscreen,
                is_pending_maximized: maximized,
                ..c
            })
            &&& after.tiles.len() == c.tiles.len()
            &&& after.tiles[row] == (Tile {
                window: Window {
                    requested_size: None,
                    pending_sizing_mode: if fullscreen {
                        SizingMode::Fullscreen
                    } else if maximized {
                        SizingMode::Maximized
                    } else {
                        SizingMode::Normal
                    },
                    pending_windowed_fullscreen: before.pending_windowed_fullscreen && !fullscreen,
                    ..before
                },
                ..c.tiles[row]
            })
        }),
{
}

/// A window that is asked for a size and a mode notes both, and fullscreen ends windowed
/// fullscreen.
pub proof fn law_size_request<H: Host>(window: Window<H>, request: SizeRequest, mode: SizingMode)
    ensures
        window.requested(request, mode) == (Window {
            requested_size: Some(request),
            pending_sizing_mode: mode,
            pending_windowed_fullscreen: window.pending_windowed_fullscreen && mode
                != SizingMode::Fullscreen,
            ..window
        }),
{
}

/// A window that leaves a shared column gets one of its own just to the right, with the settings
/// of the one that it leaves. The other columns stay, and so does the focus.
pub proof fn law_window_gets_its_own_column<H: Host>(ws: WorkspaceView<H>, column: int, row: int)
    requires
        ws.wf(),
        ws.valid(Place::Tiled { column, row }),
        ws.columns[column].tiles.len() > 1,
    ensures
        ({
            let after = ws.expelled(column, row);
            let c = ws.columns[column];
            &&& after == (WorkspaceView {
                columns: after.columns,
                active_column_idx: after.active_column_idx,
                ..ws
            })
            &&& after.columns.len() == ws.columns.len() + 1
            &&& after.columns[column] == c.without(row)
            &&& after.columns[column + 1].tiles == seq![c.tiles[row]]
            &&& after.columns[column + 1].width == c.width
            &&& after.columns[column + 1].is_full_width == c.is_full_width
            &&& after.columns[column + 1].display == ColumnDisplay::Normal
            &&& after.columns.remove(column + 1).remove(column) == ws.columns.remove(column)
            &&& after.focus() == ws.focus()
        }),
{
    assert(ws.columns[column].wf());
    lemma_expelled(ws, column, row, Key::Minimized);
    let after = ws.expelled(column, row);
    assert(after.columns[column + 1].tiles =~= seq![ws.columns[column].tiles[row]]);
    assert(after.columns.remove(column + 1).remove(column) =~= ws.columns.remove(column));
}

/// In the other columns a request changes nothing.
pub proof fn law_requests_leave_other_columns_alone<H: Host>(
    ws: WorkspaceView<H>,
    column: int,
    row: int,
    request: Request,
    on: bool,
)
    requires
        ws.wf(),
        ws.valid(Place::Tiled { column, row }),
    ensures
        forall|c: int|
            0 <= c < column ==> #[trigger] ws.sized(
                Place::Tiled { column, row },
                request,
                on,
            ).columns[c] == ws.columns[c],
        ws.sized(Place::Tiled { column, row }, request, on).columns.len() == ws.columns.len() ==> (
        forall|c: int|
            column < c < ws.columns.len() ==> #[trigger] ws.sized(
                Place::Tiled { column, row },
                request,
                on,
            ).columns[c] == ws.columns[c]),
{
    let place = Place::Tiled { column, row };
    let c = ws.columns[column];
    assert(c.wf());
    if !on && ws.withdrawal_floats(column, row, request) {
        law_tile_leaves_its_workspace(ws, place);
        if c.tiles.len() > 1 {
            law_tile_leaves_a_shared_column(c, row);
        }
    }
}

} // verus!
