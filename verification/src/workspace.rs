//! A workspace: scrolling columns and floating windows above them.

use vstd::prelude::*;

use crate::column::{Column, ColumnView};
use crate::ownership::{
    count, lemma_count_add, lemma_count_at, lemma_count_flat_at, lemma_count_flat_insert,
    lemma_count_flat_remove, lemma_count_flat_unique, lemma_count_flat_update,
    lemma_count_flat_witness, lemma_count_insert, lemma_count_one, lemma_count_remove,
    lemma_count_unique, lemma_count_witness, fits, one, Key,
};
use crate::tile::{RemovedTile, Tile};
use crate::types::{Host, SizingMode, WindowId, WorkspaceId};

verus! {

pub struct Workspace<H: Host> {
    pub id: WorkspaceId,
    /// A named workspace stays when it becomes empty.
    pub is_named: bool,
    pub columns: Vec<Column<H>>,
    pub active_column_idx: usize,
    /// Topmost first.
    pub floating: Vec<Tile<H>>,
    pub active_floating: Option<WindowId>,
    /// The floating windows have the focus, not the columns.
    pub floating_is_active: bool,
}

#[verifier::ext_equal]
pub struct WorkspaceView<H: Host> {
    pub id: WorkspaceId,
    pub is_named: bool,
    pub columns: Seq<ColumnView<H>>,
    pub active_column_idx: int,
    pub floating: Seq<Tile<H>>,
    pub active_floating: Option<WindowId>,
    pub floating_is_active: bool,
}

/// A place for a tile within a workspace.
#[derive(Copy)]
pub enum Place<I> {
    Tiled { column: I, row: I },
    Floating { index: I },
}

impl<I: Copy> Clone for Place<I> {
    fn clone(&self) -> (res: Self)
        ensures
            res == *self,
    {
        *self
    }
}

impl View for Place<usize> {
    type V = Place<int>;

    open spec fn view(&self) -> Place<int> {
        match *self {
            Place::Tiled { column, row } => Place::Tiled { column: column as int, row: row as int },
            Place::Floating { index } => Place::Floating { index: index as int },
        }
    }
}

impl<H: Host> View for Workspace<H> {
    type V = WorkspaceView<H>;

    open spec fn view(&self) -> WorkspaceView<H> {
        WorkspaceView {
            id: self.id,
            is_named: self.is_named,
            columns: self.columns@.map_values(|c: Column<H>| c@),
            active_column_idx: self.active_column_idx as int,
            floating: self.floating@,
            active_floating: self.active_floating,
            floating_is_active: self.floating_is_active,
        }
    }
}

/// The tiles of the columns, column by column.
pub open spec fn column_lists<H: Host>(columns: Seq<ColumnView<H>>) -> Seq<Seq<Tile<H>>> {
    columns.map_values(|c: ColumnView<H>| c.tiles)
}

impl<H: Host> WorkspaceView<H> {
    pub open spec fn wf(self) -> bool {
        &&& forall|c: int| 0 <= c < self.columns.len() ==> (#[trigger] self.columns[c]).wf()
        &&& 0 <= self.active_column_idx < self.columns.len() || (self.columns.len() == 0
            && self.active_column_idx == 0)
        &&& self.active_floating is None <==> self.floating.len() == 0
        &&& self.active_floating matches Some(id) ==> exists|i: int|
            0 <= i < self.floating.len() && (#[trigger] self.floating[i]).window.id == id
        &&& forall|i: int|
            0 <= i < self.floating.len() ==> (
            #[trigger] self.floating[i]).window.pending_sizing_mode == SizingMode::Normal
        &&& self.floating_is_active ==> self.floating.len() > 0
        &&& self.columns.len() == 0 && self.floating.len() > 0 ==> self.floating_is_active
    }

    /// An empty workspace.
    pub open spec fn empty(id: WorkspaceId) -> Self {
        WorkspaceView {
            id,
            is_named: false,
            columns: Seq::empty(),
            active_column_idx: 0,
            floating: Seq::empty(),
            active_floating: None,
            floating_is_active: false,
        }
    }

    pub open spec fn has_no_windows(self) -> bool {
        self.columns.len() == 0 && self.floating.len() == 0
    }

    /// All tiles: the columns from left to right, then the floating windows from the top.
    pub open spec fn tiles(self) -> Seq<Tile<H>> {
        column_lists(self.columns).flatten() + self.floating
    }

    pub open spec fn valid(self, place: Place<int>) -> bool {
        match place {
            Place::Tiled { column, row } => {
                &&& 0 <= column < self.columns.len()
                &&& 0 <= row < self.columns[column].tiles.len()
            },
            Place::Floating { index } => 0 <= index < self.floating.len(),
        }
    }

    pub open spec fn tile(self, place: Place<int>) -> Tile<H> {
        match place {
            Place::Tiled { column, row } => self.columns[column].tiles[row],
            Place::Floating { index } => self.floating[index],
        }
    }

    /// The window sits at this place.
    pub open spec fn holds_at(self, place: Place<int>, id: WindowId) -> bool {
        self.valid(place) && self.tile(place).window.id == id
    }

    pub open spec fn holds(self, id: WindowId) -> bool {
        exists|place: Place<int>| self.holds_at(place, id)
    }

    /// The tile at a place together with the column settings that it takes along.
    pub open spec fn removed(self, place: Place<int>) -> RemovedTile<H> {
        match place {
            Place::Tiled { column, row } => RemovedTile {
                tile: self.tile(place),
                width: self.columns[column].width,
                is_full_width: self.columns[column].is_full_width,
                is_floating: false,
            },
            Place::Floating { index } => RemovedTile {
                tile: self.tile(place),
                width: self.tile(place).natural_width,
                is_full_width: false,
                is_floating: true,
            },
        }
    }

    /// The workspace without the tile at a place. No placeholder stays behind: a column that
    /// would be empty goes too, and the focus passes to what takes its place.
    pub open spec fn without(self, place: Place<int>) -> Self {
        match place {
            Place::Tiled { column, row } => {
                if self.columns[column].tiles.len() > 1 {
                    WorkspaceView {
                        columns: self.columns.update(column, self.columns[column].without(row)),
                        ..self
                    }
                } else {
                    let columns = self.columns.remove(column);
                    WorkspaceView {
                        columns,
                        active_column_idx: if column < self.active_column_idx || (
                        self.active_column_idx == columns.len() && columns.len() > 0) {
                            self.active_column_idx - 1
                        } else {
                            self.active_column_idx
                        },
                        floating_is_active: self.floating_is_active || (columns.len() == 0
                            && self.floating.len() > 0),
                        ..self
                    }
                }
            },
            Place::Floating { index } => {
                let floating = self.floating.remove(index);
                WorkspaceView {
                    floating,
                    active_floating: if floating.len() == 0 {
                        None
                    } else if self.active_floating == Some(self.floating[index].window.id) {
                        Some(floating[0].window.id)
                    } else {
                        self.active_floating
                    },
                    floating_is_active: self.floating_is_active && floating.len() > 0,
                    ..self
                }
            },
        }
    }

    /// The active window waits for fullscreen, so that a new window should not take its focus.
    pub open spec fn active_is_fullscreen(self) -> bool {
        &&& !self.floating_is_active
        &&& self.columns.len() > 0
        &&& self.columns[self.active_column_idx].is_pending_fullscreen
    }

    /// A tile that is to float can only do so in its normal size.
    pub open spec fn goes_floating(removed: RemovedTile<H>) -> bool {
        removed.is_floating && removed.tile.window.pending_sizing_mode == SizingMode::Normal
    }

    /// Where a new tile goes: on top of the floating windows, or into a column of its own to the
    /// right of the active one.
    pub open spec fn place_for(self, removed: RemovedTile<H>) -> Place<int> {
        if Self::goes_floating(removed) {
            Place::Floating { index: 0 }
        } else {
            Place::Tiled {
                column: if self.columns.len() == 0 {
                    0
                } else {
                    self.active_column_idx + 1
                },
                row: 0,
            }
        }
    }

    /// The workspace with a new tile.
    pub open spec fn with_added(self, removed: RemovedTile<H>, activate: bool) -> Self {
        let tile = removed.tile.placed(removed.is_floating);
        match self.place_for(removed) {
            Place::Floating { index } => WorkspaceView {
                floating: self.floating.insert(index, tile),
                active_floating: if activate || self.floating.len() == 0 {
                    Some(tile.window.id)
                } else {
                    self.active_floating
                },
                floating_is_active: self.floating_is_active || activate || self.columns.len() == 0,
                ..self
            },
            Place::Tiled { column, row } => WorkspaceView {
                columns: self.columns.insert(
                    column,
                    ColumnView::of_tile(tile, removed.width, removed.is_full_width),
                ),
                active_column_idx: if activate {
                    column
                } else {
                    self.active_column_idx
                },
                floating_is_active: self.floating_is_active && !activate,
                ..self
            },
        }
    }

    /// The workspace with another tile in one of its places.
    pub open spec fn with_tile(self, place: Place<int>, tile: Tile<H>) -> Self {
        match place {
            Place::Tiled { column, row } => WorkspaceView {
                columns: self.columns.update(
                    column,
                    ColumnView {
                        tiles: self.columns[column].tiles.update(row, tile),
                        ..self.columns[column]
                    },
                ),
                ..self
            },
            Place::Floating { index } => WorkspaceView {
                floating: self.floating.update(index, tile),
                ..self
            },
        }
    }

    /// The focused window.
    pub open spec fn focus(self) -> Option<WindowId> {
        if self.floating_is_active {
            self.active_floating
        } else if self.columns.len() > 0 {
            let column = self.columns[self.active_column_idx];
            Some(column.tiles[column.active_tile_idx].window.id)
        } else {
            None
        }
    }
}


impl<H: Host> Workspace<H> {
    pub fn empty(id: WorkspaceId) -> (res: Self)
        ensures
            res@ == WorkspaceView::<H>::empty(id),
    {
        let res = Workspace {
            id,
            is_named: false,
            columns: Vec::new(),
            active_column_idx: 0,
            floating: Vec::new(),
            active_floating: None,
            floating_is_active: false,
        };
        assert(res@ =~= WorkspaceView::<H>::empty(id));
        res
    }

    pub fn has_no_windows(&self) -> (res: bool)
        ensures
            res == self@.has_no_windows(),
    {
        self.columns.len() == 0 && self.floating.len() == 0
    }

    /// Finds the window.
    pub fn find_place(&self, id: &WindowId) -> (res: Option<Place<usize>>)
        ensures
            match res {
                Some(place) => self@.holds_at(place@, *id),
                None => !self@.holds(*id),
            },
    {
        let mut column: usize = 0;
        while column < self.columns.len()
            invariant
                column <= self.columns@.len(),
                forall|c: int, r: int|
                    0 <= c < column && 0 <= r < self.columns@[c].tiles@.len() ==> (
                    #[trigger] self.columns@[c].tiles@[r]).window.id != *id,
            decreases self.columns@.len() - column,
        {
            let mut row: usize = 0;
            while row < self.columns[column].tiles.len()
                invariant
                    column < self.columns@.len(),
                    row <= self.columns@[column as int].tiles@.len(),
                    forall|r: int|
                        0 <= r < row ==> (
                        #[trigger] self.columns@[column as int].tiles@[r]).window.id != *id,
                decreases self.columns@[column as int].tiles@.len() - row,
            {
                if self.columns[column].tiles[row].window.id == *id {
                    let place = Place::Tiled { column, row };
                    assert(self@.holds_at(place@, *id));
                    return Some(place);
                }
                row += 1;
            }
            column += 1;
        }
        let mut index: usize = 0;
        while index < self.floating.len()
            invariant
                index <= self.floating@.len(),
                forall|i: int|
                    0 <= i < index ==> (#[trigger] self.floating@[i]).window.id != *id,
            decreases self.floating@.len() - index,
        {
            if self.floating[index].window.id == *id {
                return Some(Place::Floating { index });
            }
            index += 1;
        }
        assert forall|place: Place<int>| !self@.holds_at(place, *id) by {
            if self@.holds_at(place, *id) {
                match place {
                    Place::Tiled { column: c, row: r } => {
                        assert(self.columns@[c].tiles@[r].window.id != *id);
                    },
                    Place::Floating { index: i } => {
                        assert(self.floating@[i].window.id != *id);
                    },
                }
            }
        }
        None
    }

    pub fn has_window(&self, id: &WindowId) -> (res: bool)
        ensures
            res == self@.holds(*id),
    {
        self.find_place(id).is_some()
    }

    pub fn tile_at(&self, place: &Place<usize>) -> (res: &Tile<H>)
        requires
            self@.valid(place@),
        ensures
            *res == self@.tile(place@),
    {
        match place {
            Place::Tiled { column, row } => &self.columns[*column].tiles[*row],
            Place::Floating { index } => &self.floating[*index],
        }
    }

    pub fn tile_mut(&mut self, place: &Place<usize>) -> (res: &mut Tile<H>)
        requires
            old(self)@.valid(place@),
        ensures
            *res == old(self)@.tile(place@),
            final(self)@ == old(self)@.with_tile(place@, *final(res)),
    {
        match place {
            Place::Tiled { column, row } => {
                let res = &mut self.columns[*column].tiles[*row];
                res
            },
            Place::Floating { index } => &mut self.floating[*index],
        }
    }
}

impl<H: Host> Workspace<H> {
    /// Takes a tile out, leaving no placeholder.
    pub fn remove_tile(&mut self, place: &Place<usize>) -> (res: RemovedTile<H>)
        requires
            old(self)@.wf(),
            old(self)@.valid(place@),
        ensures
            res == old(self)@.removed(place@),
            final(self)@ == old(self)@.without(place@),
    {
        match place {
            Place::Tiled { column, row } => {
                let column: usize = *column;
                let row: usize = *row;
                assert(self@.columns[column as int].wf());
                let width = self.columns[column].width;
                let is_full_width = self.columns[column].is_full_width;
                let tile = if self.columns[column].tiles.len() > 1 {
                    let tile = self.columns[column].remove_tile(row);
                    assert(self@ =~~= old(self)@.without(place@));
                    tile
                } else {
                    let mut whole = self.columns.remove(column);
                    let tile = whole.tiles.remove(row);
                    let left: usize = self.columns.len();
                    if column < self.active_column_idx || (self.active_column_idx == left && left
                        > 0) {
                        self.active_column_idx = self.active_column_idx - 1;
                    }
                    if left == 0 && self.floating.len() > 0 {
                        self.floating_is_active = true;
                    }
                    assert(self@ =~~= old(self)@.without(place@));
                    tile
                };
                RemovedTile { tile, width, is_full_width, is_floating: false }
            },
            Place::Floating { index } => {
                let tile = self.floating.remove(*index);
                if self.floating.len() == 0 {
                    self.active_floating = None;
                    self.floating_is_active = false;
                } else if self.active_floating == Some(tile.window.id) {
                    self.active_floating = Some(self.floating[0].window.id);
                }
                let width = tile.natural_width;
                RemovedTile { tile, width, is_full_width: false, is_floating: true }
            },
        }
    }

    /// Puts a tile in: on top of the floating windows, or into a column of its own to the right
    /// of the active one.
    pub fn add_tile(&mut self, removed: RemovedTile<H>, activate: bool)
        requires
            old(self)@.wf(),
        ensures
            final(self)@ == old(self)@.with_added(removed, activate),
    {
        let RemovedTile { mut tile, width, is_full_width, is_floating } = removed;
        tile.restore_to_floating = is_floating;
        tile.view_pos = None;
        if is_floating && tile.window.pending_sizing_mode.is_normal() {
            if activate || self.floating.len() == 0 {
                self.active_floating = Some(tile.window.id);
            }
            if activate || self.columns.len() == 0 {
                self.floating_is_active = true;
            }
            self.floating.insert(0, tile);
        } else {
            let idx: usize = if self.columns.len() == 0 {
                0
            } else {
                self.active_column_idx + 1
            };
            if activate {
                self.active_column_idx = idx;
                self.floating_is_active = false;
            }
            self.columns.insert(idx, Column::of_tile(tile, width, is_full_width));
        }
        assert(self@ =~~= old(self)@.with_added(removed, activate));
    }

    pub fn is_active_pending_fullscreen(&self) -> (res: bool)
        requires
            self@.wf(),
        ensures
            res == self@.active_is_fullscreen(),
    {
        !self.floating_is_active && self.columns.len() > 0
            && self.columns[self.active_column_idx].is_pending_fullscreen
    }

    pub fn focus(&self) -> (res: Option<WindowId>)
        requires
            self@.wf(),
        ensures
            res == self@.focus(),
    {
        if self.floating_is_active {
            self.active_floating
        } else if self.columns.len() > 0 {
            let column = &self.columns[self.active_column_idx];
            assert(self@.columns[self.active_column_idx as int].wf());
            Some(column.tiles[column.active_tile_idx].window.id)
        } else {
            None
        }
    }
}

pub proof fn lemma_without_wf<H: Host>(ws: WorkspaceView<H>, place: Place<int>)
    requires
        ws.wf(),
        ws.valid(place),
    ensures
        ws.without(place).wf(),
{
    let after = ws.without(place);
    match place {
        Place::Tiled { column, row } => {
            assert(ws.columns[column].wf());
            assert forall|c: int| 0 <= c < after.columns.len() implies (
            #[trigger] after.columns[c]).wf() by {
                if ws.columns[column].tiles.len() > 1 {
                    assert(ws.columns[c].wf());
                } else if c < column {
                    assert(ws.columns[c].wf());
                } else {
                    assert(ws.columns[c + 1].wf());
                }
            }
        },
        Place::Floating { index } => {
            assert(after.columns == ws.columns);
            if after.floating.len() > 0 {
                let id = ws.active_floating.unwrap();
                if id == ws.floating[index].window.id {
                    assert(after.floating[0].window.id == after.active_floating.unwrap());
                } else {
                    let i = choose|i: int|
                        0 <= i < ws.floating.len() && (#[trigger] ws.floating[i]).window.id == id;
                    let k = if i < index {
                        i
                    } else {
                        i - 1
                    };
                    assert(after.floating[k].window.id == id);
                }
            }
        },
    }
}

pub proof fn lemma_without_count<H: Host>(ws: WorkspaceView<H>, place: Place<int>, key: Key<H>)
    requires
        ws.valid(place),
    ensures
        count(ws.tiles(), key) == count(ws.without(place).tiles(), key) + one(ws.tile(place), key),
{
    let after = ws.without(place);
    let lists = column_lists(ws.columns);
    lemma_count_add(lists.flatten(), ws.floating, key);
    lemma_count_add(column_lists(after.columns).flatten(), after.floating, key);
    match place {
        Place::Tiled { column, row } => {
            lemma_count_remove(ws.columns[column].tiles, row, key);
            if ws.columns[column].tiles.len() > 1 {
                let tiles = ws.columns[column].without(row).tiles;
                lemma_count_flat_update(lists, column, tiles, key);
                assert(column_lists(after.columns) =~= lists.update(column, tiles));
            } else {
                lemma_count_flat_remove(lists, column, key);
                assert(column_lists(after.columns) =~= lists.remove(column));
                assert(ws.columns[column].tiles =~= seq![ws.tile(place)]);
                lemma_count_one(ws.tile(place), key);
            }
        },
        Place::Floating { index } => {
            lemma_count_remove(ws.floating, index, key);
        },
    }
}

pub proof fn lemma_added_wf<H: Host>(ws: WorkspaceView<H>, removed: RemovedTile<H>, activate: bool)
    requires
        ws.wf(),
    ensures
        ws.with_added(removed, activate).wf(),
        ws.with_added(removed, activate).holds_at(
            ws.place_for(removed),
            removed.tile.window.id,
        ),
        !ws.with_added(removed, activate).has_no_windows(),
        activate ==> ws.with_added(removed, activate).focus() == Some(removed.tile.window.id),
{
    let after = ws.with_added(removed, activate);
    match ws.place_for(removed) {
        Place::Tiled { column, row } => {
            assert forall|c: int| 0 <= c < after.columns.len() implies (
            #[trigger] after.columns[c]).wf() by {
                if c < column {
                    assert(ws.columns[c].wf());
                } else if c > column {
                    assert(ws.columns[c - 1].wf());
                }
            }
            if ws.active_floating is Some {
                let i = choose|i: int|
                    0 <= i < ws.floating.len() && (#[trigger] ws.floating[i]).window.id
                        == ws.active_floating.unwrap();
                assert(after.floating[i].window.id == after.active_floating.unwrap());
            }
        },
        Place::Floating { index } => {
            assert(after.floating[0].window.id == removed.tile.window.id);
            if !activate && ws.floating.len() > 0 {
                let i = choose|i: int|
                    0 <= i < ws.floating.len() && (#[trigger] ws.floating[i]).window.id
                        == ws.active_floating.unwrap();
                assert(after.floating[i + 1].window.id == after.active_floating.unwrap());
            }
        },
    }
}

pub proof fn lemma_added_count<H: Host>(
    ws: WorkspaceView<H>,
    removed: RemovedTile<H>,
    activate: bool,
    key: Key<H>,
)
    requires
        ws.wf(),
    ensures
        count(ws.with_added(removed, activate).tiles(), key) == count(ws.tiles(), key) + one(
            removed.tile,
            key,
        ),
{
    let after = ws.with_added(removed, activate);
    let tile = removed.tile.placed(removed.is_floating);
    let lists = column_lists(ws.columns);
    lemma_count_add(lists.flatten(), ws.floating, key);
    lemma_count_add(column_lists(after.columns).flatten(), after.floating, key);
    match ws.place_for(removed) {
        Place::Tiled { column, row } => {
            lemma_count_flat_insert(lists, column, seq![tile], key);
            lemma_count_one(tile, key);
            assert(column_lists(after.columns) =~= lists.insert(column, seq![tile]));
        },
        Place::Floating { index } => {
            lemma_count_insert(ws.floating, index, tile, key);
        },
    }
}

/// A tile found at a place counts.
pub proof fn lemma_place_counts<H: Host>(ws: WorkspaceView<H>, place: Place<int>, key: Key<H>)
    requires
        ws.valid(place),
        fits(key, ws.tile(place)),
    ensures
        count(ws.tiles(), key) >= 1,
{
    lemma_without_count(ws, place, key);
}

/// A tile that counts is found at a place.
pub proof fn lemma_count_has_place<H: Host>(ws: WorkspaceView<H>, key: Key<H>) -> (place: Place<
    int,
>)
    requires
        count(ws.tiles(), key) >= 1,
    ensures
        ws.valid(place),
        fits(key, ws.tile(place)),
{
    let lists = column_lists(ws.columns);
    lemma_count_add(lists.flatten(), ws.floating, key);
    if count(ws.floating, key) >= 1 {
        let index = lemma_count_witness(ws.floating, key);
        Place::Floating { index }
    } else {
        let column = lemma_count_flat_witness(lists, key);
        let row = lemma_count_witness(lists[column], key);
        Place::Tiled { column, row }
    }
}

/// Where at most one tile fits, there is only one place for it.
pub proof fn lemma_place_unique<H: Host>(
    ws: WorkspaceView<H>,
    p: Place<int>,
    q: Place<int>,
    key: Key<H>,
)
    requires
        ws.valid(p),
        ws.valid(q),
        fits(key, ws.tile(p)),
        fits(key, ws.tile(q)),
        count(ws.tiles(), key) <= 1,
    ensures
        p == q,
{
    let lists = column_lists(ws.columns);
    lemma_count_add(lists.flatten(), ws.floating, key);
    match p {
        Place::Tiled { column, row } => {
            lemma_count_at(lists[column], row, key);
            lemma_count_flat_at(lists, column, key);
        },
        Place::Floating { index } => {
            lemma_count_at(ws.floating, index, key);
        },
    }
    match q {
        Place::Tiled { column, row } => {
            lemma_count_at(lists[column], row, key);
            lemma_count_flat_at(lists, column, key);
        },
        Place::Floating { index } => {
            lemma_count_at(ws.floating, index, key);
        },
    }
    match (p, q) {
        (Place::Tiled { column: c, row: r }, Place::Tiled { column: d, row: s }) => {
            lemma_count_flat_unique(lists, c, d, key);
            lemma_count_unique(lists[c], r, s, key);
        },
        (Place::Floating { index: i }, Place::Floating { index: j }) => {
            lemma_count_unique(ws.floating, i, j, key);
        },
        _ => {},
    }
}

pub proof fn lemma_with_tile_wf<H: Host>(ws: WorkspaceView<H>, place: Place<int>, tile: Tile<H>)
    requires
        ws.wf(),
        ws.valid(place),
        tile.window.id == ws.tile(place).window.id,
        tile.window.pending_sizing_mode == ws.tile(place).window.pending_sizing_mode,
    ensures
        ws.with_tile(place, tile).wf(),
        ws.with_tile(place, tile).focus() == ws.focus(),
{
    let after = ws.with_tile(place, tile);
    match place {
        Place::Tiled { column, row } => {
            assert forall|c: int| 0 <= c < after.columns.len() implies (
            #[trigger] after.columns[c]).wf() by {
                assert(ws.columns[c].wf());
            }
        },
        Place::Floating { index } => {
            assert(after.columns == ws.columns);
        },
    }
    if ws.active_floating is Some {
        let i = choose|i: int|
            0 <= i < ws.floating.len() && (#[trigger] ws.floating[i]).window.id
                == ws.active_floating.unwrap();
        assert(after.floating[i].window.id == after.active_floating.unwrap());
    }
}

pub proof fn lemma_empty<H: Host>(id: WorkspaceId, key: Key<H>)
    ensures
        WorkspaceView::<H>::empty(id).wf(),
        count(WorkspaceView::<H>::empty(id).tiles(), key) == 0,
{
    let ws = WorkspaceView::<H>::empty(id);
    assert(column_lists(ws.columns) =~= Seq::<Seq<Tile<H>>>::empty());
    assert(ws.tiles() =~= Seq::<Tile<H>>::empty());
}

} // verus!
