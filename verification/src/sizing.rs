//! Fullscreen and maximized windows within a workspace.

use vstd::prelude::*;

use crate::column::{column_mode, Column, ColumnView};
use crate::ownership::{
    count, lemma_count_add, lemma_count_flat_insert, lemma_count_flat_update, lemma_count_one,
    lemma_count_pointwise, lemma_count_remove, Key,
};
use crate::tile::{RemovedTile, Tile};
use crate::types::{ColumnDisplay, Host, Size, SizeRequest, SizingMode};
use crate::workspace::{
    column_lists, lemma_added_count, lemma_added_wf, lemma_without_count, lemma_without_wf, Place,
    Workspace, WorkspaceView,
};

verus! {

/// The request that is made or withdrawn.
#[derive(Clone, Copy, Debug, PartialEq, Eq, Structural)]
pub enum Request {
    Fullscreen,
    Maximized,
}

impl<H: Host> Tile<H> {
    /// The size in which the window floats.
    pub open spec fn floating_size(self) -> Size {
        match self.floating_window_size {
            Some(size) => size,
            None => self.window.size,
        }
    }

    /// What a window is asked for when it goes floating.
    pub open spec fn floating_request(self) -> SizeRequest {
        SizeRequest { size: self.floating_size(), animate: true, transaction: None }
    }
}

impl<H: Host> WorkspaceView<H> {
    /// A tile of a column goes floating, in its normal size.
    pub open spec fn floated(self, place: Place<int>) -> Self {
        let removed = self.removed(place);
        let tile = removed.tile;
        self.without(place).with_added(
            RemovedTile {
                tile: Tile {
                    window: tile.window.requested(tile.floating_request(), SizingMode::Normal),
                    move_x_animation: None,
                    move_y_animation: None,
                    ..tile
                },
                is_floating: true,
                ..removed
            },
            self.focus() == Some(tile.window.id),
        )
    }

    /// A floating tile as it enters the columns.
    pub open spec fn sinking(self, place: Place<int>) -> RemovedTile<H> {
        RemovedTile { is_floating: false, ..self.removed(place) }
    }

    /// A floating tile enters the columns.
    pub open spec fn sunk(self, place: Place<int>) -> Self {
        self.without(place).with_added(
            self.sinking(place),
            self.focus() == Some(self.tile(place).window.id),
        )
    }

    /// A tile leaves a column that it shares for one of its own, just to the right.
    pub open spec fn expelled(self, column: int, row: int) -> Self {
        let source = self.columns[column];
        WorkspaceView {
            columns: self.columns.update(column, source.without(row)).insert(
                column + 1,
                ColumnView::of_tile(source.tiles[row], source.width, source.is_full_width),
            ),
            active_column_idx: if self.active_column_idx > column || (self.active_column_idx
                == column && row == source.active_tile_idx) {
                self.active_column_idx + 1
            } else {
                self.active_column_idx
            },
            ..self
        }
    }

    /// A column takes new flags. Where it leaves its normal size, `back` is remembered for the
    /// tile in `row`: whether it goes back to floating afterwards.
    pub open spec fn flagged(
        self,
        column: int,
        row: int,
        fullscreen: bool,
        maximized: bool,
        back: bool,
    ) -> Self {
        let before = self.columns[column];
        let after = before.with_flags(fullscreen, maximized);
        let leaves_normal = column_mode(before.is_pending_fullscreen, before.is_pending_maximized)
            == SizingMode::Normal && column_mode(fullscreen, maximized) != SizingMode::Normal;
        WorkspaceView {
            columns: self.columns.update(
                column,
                if leaves_normal {
                    ColumnView {
                        tiles: after.tiles.update(
                            row,
                            Tile { restore_to_floating: back, ..after.tiles[row] },
                        ),
                        ..after
                    }
                } else {
                    after
                },
            ),
            ..self
        }
    }

    /// Whether withdrawing the request takes the window back to floating.
    pub open spec fn withdrawal_floats(self, column: int, row: int, request: Request) -> bool {
        let source = self.columns[column];
        let tile = source.tiles[row];
        tile.restore_to_floating && match request {
            Request::Fullscreen => source.is_pending_fullscreen && !source.is_pending_maximized,
            Request::Maximized => tile.window.pending_sizing_mode == SizingMode::Maximized,
        }
    }

    /// The workspace after a request for the window at a place was made (`on`) or withdrawn.
    pub open spec fn sized(self, place: Place<int>, request: Request, on: bool) -> Self {
        match place {
            Place::Floating { index } => {
                if on {
                    self.sunk(place).flagged(
                        self.without(place).place_for(self.sinking(place))->column,
                        0,
                        request == Request::Fullscreen,
                        request == Request::Maximized,
                        true,
                    )
                } else {
                    self
                }
            },
            Place::Tiled { column, row } => {
                let source = self.columns[column];
                let current = match request {
                    Request::Fullscreen => source.is_pending_fullscreen,
                    Request::Maximized => source.is_pending_maximized,
                };
                if !on && self.withdrawal_floats(column, row, request) {
                    self.floated(place)
                } else if current == on {
                    self
                } else if on && source.tiles.len() > 1 && source.display == ColumnDisplay::Normal {
                    let expelled = self.expelled(column, row);
                    let own = expelled.columns[column + 1];
                    expelled.flagged(
                        column + 1,
                        0,
                        own.is_pending_fullscreen || request == Request::Fullscreen,
                        own.is_pending_maximized || request == Request::Maximized,
                        false,
                    )
                } else {
                    self.flagged(
                        column,
                        row,
                        if request == Request::Fullscreen {
                            on
                        } else {
                            source.is_pending_fullscreen
                        },
                        if request == Request::Maximized {
                            on
                        } else {
                            source.is_pending_maximized
                        },
                        false,
                    )
                }
            },
        }
    }
}

impl<H: Host> Workspace<H> {
    fn float_tile(&mut self, place: &Place<usize>)
        requires
            old(self)@.wf(),
            old(self)@.valid(place@),
        ensures
            final(self)@ == old(self)@.floated(place@),
    {
        let focus = self.focus();
        let mut removed = self.remove_tile(place);
        proof {
            lemma_without_wf(old(self)@, place@);
        }
        let activate = focus == Some(removed.tile.window.id);
        let size = match removed.tile.floating_window_size {
            Some(size) => size,
            None => removed.tile.window.size,
        };
        removed.tile.window.request_size(size, SizingMode::Normal, true, None);
        removed.tile.stop_move_animations();
        removed.is_floating = true;
        self.add_tile(removed, activate);
    }

    fn sink_tile(&mut self, place: &Place<usize>)
        requires
            old(self)@.wf(),
            old(self)@.valid(place@),
        ensures
            final(self)@ == old(self)@.sunk(place@),
    {
        let focus = self.focus();
        let mut removed = self.remove_tile(place);
        proof {
            lemma_without_wf(old(self)@, place@);
        }
        let activate = focus == Some(removed.tile.window.id);
        removed.is_floating = false;
        self.add_tile(removed, activate);
    }

    fn expel_tile(&mut self, column: usize, row: usize)
        requires
            old(self)@.wf(),
            column < old(self)@.columns.len(),
            old(self)@.columns[column as int].tiles.len() > 1,
            row < old(self)@.columns[column as int].tiles.len(),
        ensures
            final(self)@ == old(self)@.expelled(column as int, row as int),
    {
        assert(self@.columns[column as int].wf());
        assert(self.columns.len() == self.columns@.len());
        let was_active = self.active_column_idx == column && self.columns[column].active_tile_idx
            == row;
        let width = self.columns[column].width;
        let is_full_width = self.columns[column].is_full_width;
        let tile = self.columns[column].remove_tile(row);
        self.columns.insert(column + 1, Column::of_tile(tile, width, is_full_width));
        if self.active_column_idx > column || was_active {
            self.active_column_idx = self.active_column_idx + 1;
        }
        assert(self@ =~~= old(self)@.expelled(column as int, row as int));
    }

    fn flag_column(
        &mut self,
        column: usize,
        row: usize,
        fullscreen: bool,
        maximized: bool,
        back: bool,
    )
        requires
            column < old(self)@.columns.len(),
            row < old(self)@.columns[column as int].tiles.len(),
        ensures
            final(self)@ == old(self)@.flagged(
                column as int,
                row as int,
                fullscreen,
                maximized,
                back,
            ),
    {
        let leaves_normal = !self.columns[column].is_pending_fullscreen
            && !self.columns[column].is_pending_maximized && (fullscreen || maximized);
        self.columns[column].set_flags(fullscreen, maximized);
        if leaves_normal {
            self.columns[column].tiles[row].restore_to_floating = back;
        }
        assert(self@ =~~= old(self)@.flagged(
            column as int,
            row as int,
            fullscreen,
            maximized,
            back,
        ));
    }
}


impl<H: Host> Workspace<H> {
    /// Makes or withdraws a request for the window at a place.
    pub fn set_sizing(&mut self, place: &Place<usize>, request: Request, on: bool)
        requires
            old(self)@.wf(),
            old(self)@.valid(place@),
        ensures
            final(self)@ == old(self)@.sized(place@, request, on),
    {
        let is_fullscreen = request == Request::Fullscreen;
        let is_maximized = request == Request::Maximized;
        match place {
            Place::Floating { index } => {
                if on {
                    proof {
                        lemma_without_wf(old(self)@, place@);
                        lemma_added_wf(
                            old(self)@.without(place@),
                            old(self)@.sinking(place@),
                            old(self)@.focus() == Some(old(self)@.tile(place@).window.id),
                        );
                    }
                    // The new column goes to the right of the active one.
                    let column: usize = if self.columns.len() == 0 {
                        0
                    } else {
                        self.active_column_idx + 1
                    };
                    self.sink_tile(place);
                    self.flag_column(column, 0, is_fullscreen, is_maximized, true);
                }
            },
            Place::Tiled { column, row } => {
                let column: usize = *column;
                let row: usize = *row;
                let fullscreen = self.columns[column].is_pending_fullscreen;
                let maximized = self.columns[column].is_pending_maximized;
                let tile = &self.columns[column].tiles[row];
                let floats = tile.restore_to_floating && match request {
                    Request::Fullscreen => fullscreen && !maximized,
                    Request::Maximized => tile.window.pending_sizing_mode.is_maximized(),
                };
                let current = match request {
                    Request::Fullscreen => fullscreen,
                    Request::Maximized => maximized,
                };
                if !on && floats {
                    self.float_tile(place);
                } else if current == on {
                } else if on && self.columns[column].tiles.len() > 1
                    && self.columns[column].display == ColumnDisplay::Normal {
                    self.expel_tile(column, row);
                    assert(self@.columns.len() == old(self)@.columns.len() + 1);
                    assert(self.columns.len() == self.columns@.len());
                    let own: usize = column + 1;
                    let fullscreen = self.columns[own].is_pending_fullscreen || is_fullscreen;
                    let maximized = self.columns[own].is_pending_maximized || is_maximized;
                    self.flag_column(own, 0, fullscreen, maximized, false);
                } else {
                    let fullscreen = if is_fullscreen {
                        on
                    } else {
                        fullscreen
                    };
                    let maximized = if is_maximized {
                        on
                    } else {
                        maximized
                    };
                    self.flag_column(column, row, fullscreen, maximized, false);
                }
            },
        }
    }

    /// Whether the window waits to be maximized, possibly underneath fullscreen.
    pub fn is_pending_maximized(&self, place: &Place<usize>) -> (res: bool)
        requires
            self@.valid(place@),
        ensures
            res == self@.maximized_at(place@),
    {
        match place {
            Place::Tiled { column, .. } => self.columns[*column].is_pending_maximized,
            Place::Floating { .. } => false,
        }
    }
}

impl<H: Host> WorkspaceView<H> {
    pub open spec fn maximized_at(self, place: Place<int>) -> bool {
        match place {
            Place::Tiled { column, .. } => self.columns[column].is_pending_maximized,
            Place::Floating { .. } => false,
        }
    }
}

pub proof fn lemma_expelled<H: Host>(ws: WorkspaceView<H>, column: int, row: int, key: Key<H>)
    requires
        ws.wf(),
        0 <= column < ws.columns.len(),
        ws.columns[column].tiles.len() > 1,
        0 <= row < ws.columns[column].tiles.len(),
    ensures
        ws.expelled(column, row).wf(),
        ws.expelled(column, row).focus() == ws.focus(),
        count(ws.expelled(column, row).tiles(), key) == count(ws.tiles(), key),
{
    let after = ws.expelled(column, row);
    let source = ws.columns[column];
    assert(source.wf());
    let tile = source.tiles[row];
    let lists = column_lists(ws.columns);
    let shorter = lists.update(column, source.without(row).tiles);
    lemma_count_add(lists.flatten(), ws.floating, key);
    lemma_count_add(column_lists(after.columns).flatten(), after.floating, key);
    lemma_count_remove(source.tiles, row, key);
    lemma_count_flat_update(lists, column, source.without(row).tiles, key);
    lemma_count_flat_insert(shorter, column + 1, seq![tile], key);
    lemma_count_one(tile, key);
    assert(column_lists(after.columns) =~= shorter.insert(column + 1, seq![tile]));
    assert forall|c: int| 0 <= c < after.columns.len() implies (#[trigger] after.columns[c]).wf() by {
        if c <= column {
            assert(ws.columns[c].wf());
        } else if c > column + 1 {
            assert(ws.columns[c - 1].wf());
        }
    }
    if ws.active_floating is Some {
        let i = choose|i: int|
            0 <= i < ws.floating.len() && (#[trigger] ws.floating[i]).window.id
                == ws.active_floating.unwrap();
        assert(after.floating[i].window.id == after.active_floating.unwrap());
    }
}

pub proof fn lemma_flagged<H: Host>(
    ws: WorkspaceView<H>,
    column: int,
    row: int,
    fullscreen: bool,
    maximized: bool,
    back: bool,
    key: Key<H>,
)
    requires
        ws.wf(),
        0 <= column < ws.columns.len(),
        0 <= row < ws.columns[column].tiles.len(),
    ensures
        ws.flagged(column, row, fullscreen, maximized, back).wf(),
        ws.flagged(column, row, fullscreen, maximized, back).focus() == ws.focus(),
        count(ws.flagged(column, row, fullscreen, maximized, back).tiles(), key) == count(
            ws.tiles(),
            key,
        ),
{
    let after = ws.flagged(column, row, fullscreen, maximized, back);
    let lists = column_lists(ws.columns);
    let tiles = after.columns[column].tiles;
    lemma_count_add(lists.flatten(), ws.floating, key);
    lemma_count_add(column_lists(after.columns).flatten(), after.floating, key);
    assert(column_lists(after.columns) =~= lists.update(column, tiles));
    lemma_count_flat_update(lists, column, tiles, key);
    lemma_count_pointwise(ws.columns[column].tiles, tiles, key);
    assert forall|c: int| 0 <= c < after.columns.len() implies (#[trigger] after.columns[c]).wf() by {
        assert(ws.columns[c].wf());
    }
    if ws.active_floating is Some {
        let i = choose|i: int|
            0 <= i < ws.floating.len() && (#[trigger] ws.floating[i]).window.id
                == ws.active_floating.unwrap();
        assert(after.floating[i].window.id == after.active_floating.unwrap());
    }
}

/// Changing how a window is sized keeps the workspace well-formed and loses no window.
pub proof fn lemma_sized<H: Host>(
    ws: WorkspaceView<H>,
    place: Place<int>,
    request: Request,
    on: bool,
    key: Key<H>,
)
    requires
        ws.wf(),
        ws.valid(place),
    ensures
        ws.sized(place, request, on).wf(),
        count(ws.sized(place, request, on).tiles(), key) == count(ws.tiles(), key),
{
    lemma_without_wf(ws, place);
    lemma_without_count(ws, place, key);
    let without = ws.without(place);
    let active = ws.focus() == Some(ws.tile(place).window.id);
    match place {
        Place::Floating { index } => {
            if on {
                let removed = ws.sinking(place);
                lemma_added_wf(without, removed, active);
                lemma_added_count(without, removed, active, key);
                lemma_flagged(
                    ws.sunk(place),
                    without.place_for(removed)->column,
                    0,
                    request == Request::Fullscreen,
                    request == Request::Maximized,
                    true,
                    key,
                );
            }
        },
        Place::Tiled { column, row } => {
            let removed = ws.removed(place);
            let tile = removed.tile;
            let floating = RemovedTile {
                tile: Tile {
                    window: tile.window.requested(tile.floating_request(), SizingMode::Normal),
                    move_x_animation: None,
                    move_y_animation: None,
                    ..tile
                },
                is_floating: true,
                ..removed
            };
            lemma_added_wf(without, floating, active);
            lemma_added_count(without, floating, active, key);
            let source = ws.columns[column];
            if on && source.tiles.len() > 1 && source.display == ColumnDisplay::Normal {
                lemma_expelled(ws, column, row, key);
                let own = ws.expelled(column, row).columns[column + 1];
                lemma_flagged(
                    ws.expelled(column, row),
                    column + 1,
                    0,
                    own.is_pending_fullscreen || request == Request::Fullscreen,
                    own.is_pending_maximized || request == Request::Maximized,
                    false,
                    key,
                );
            } else {
                lemma_flagged(
                    ws,
                    column,
                    row,
                    if request == Request::Fullscreen {
                        on
                    } else {
                        source.is_pending_fullscreen
                    },
                    if request == Request::Maximized {
                        on
                    } else {
                        source.is_pending_maximized
                    },
                    false,
                    key,
                );
            }
        },
    }
}

} // verus!
