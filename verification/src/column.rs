//! A column of the scrolling layout.

use vstd::prelude::*;

use crate::tile::Tile;
use crate::types::{ColumnDisplay, Host, SizingMode};

verus! {

/// One or more tiles that share a slot of the scrolling layout.
pub struct Column<H: Host> {
    pub tiles: Vec<Tile<H>>,
    pub active_tile_idx: usize,
    pub width: H::Width,
    pub is_full_width: bool,
    pub display: ColumnDisplay,
    pub is_pending_fullscreen: bool,
    /// Can stay set underneath fullscreen.
    pub is_pending_maximized: bool,
}

#[verifier::ext_equal]
pub struct ColumnView<H: Host> {
    pub tiles: Seq<Tile<H>>,
    pub active_tile_idx: int,
    pub width: H::Width,
    pub is_full_width: bool,
    pub display: ColumnDisplay,
    pub is_pending_fullscreen: bool,
    pub is_pending_maximized: bool,
}

impl<H: Host> View for Column<H> {
    type V = ColumnView<H>;

    open spec fn view(&self) -> ColumnView<H> {
        ColumnView {
            tiles: self.tiles@,
            active_tile_idx: self.active_tile_idx as int,
            width: self.width,
            is_full_width: self.is_full_width,
            display: self.display,
            is_pending_fullscreen: self.is_pending_fullscreen,
            is_pending_maximized: self.is_pending_maximized,
        }
    }
}

/// The sizing mode that the two flags of a column stand for.
pub open spec fn column_mode(fullscreen: bool, maximized: bool) -> SizingMode {
    if fullscreen {
        SizingMode::Fullscreen
    } else if maximized {
        SizingMode::Maximized
    } else {
        SizingMode::Normal
    }
}

impl<H: Host> ColumnView<H> {
    /// The sizing mode that the column asks its windows for.
    pub open spec fn mode(self) -> SizingMode {
        column_mode(self.is_pending_fullscreen, self.is_pending_maximized)
    }

    /// A column is never empty, one of its tiles is active, and all its windows have been asked
    /// for its sizing mode.
    pub open spec fn wf(self) -> bool {
        &&& 0 <= self.active_tile_idx < self.tiles.len()
        &&& forall|r: int|
            0 <= r < self.tiles.len() ==> (#[trigger] self.tiles[r]).window.pending_sizing_mode
                == self.mode()
    }

    /// A new column with a single tile.
    pub open spec fn of_tile(tile: Tile<H>, width: H::Width, is_full_width: bool) -> Self {
        ColumnView {
            tiles: seq![tile],
            active_tile_idx: 0,
            width,
            is_full_width,
            display: ColumnDisplay::Normal,
            is_pending_fullscreen: tile.window.pending_sizing_mode == SizingMode::Fullscreen,
            is_pending_maximized: tile.window.pending_sizing_mode == SizingMode::Maximized,
        }
    }

    /// The column without one of its tiles. The same tile stays active; where the active tile
    /// itself goes, the one below it becomes active, or else the last one.
    pub open spec fn without(self, row: int) -> Self {
        ColumnView {
            tiles: self.tiles.remove(row),
            active_tile_idx: if row < self.active_tile_idx || self.active_tile_idx
                == self.tiles.len() - 1 {
                self.active_tile_idx - 1
            } else {
                self.active_tile_idx
            },
            ..self
        }
    }

    /// The column with new flags, which all its windows follow.
    pub open spec fn with_flags(self, fullscreen: bool, maximized: bool) -> Self {
        let mode = column_mode(fullscreen, maximized);
        ColumnView {
            tiles: self.tiles.map_values(
                |tile: Tile<H>| Tile { window: tile.window.follows(mode), ..tile },
            ),
            is_pending_fullscreen: fullscreen,
            is_pending_maximized: maximized,
            ..self
        }
    }
}

impl<H: Host> Column<H> {
    pub fn of_tile(tile: Tile<H>, width: H::Width, is_full_width: bool) -> (res: Self)
        ensures
            res@ == ColumnView::of_tile(tile, width, is_full_width),
    {
        let mode = tile.window.pending_sizing_mode;
        let mut tiles: Vec<Tile<H>> = Vec::new();
        tiles.push(tile);
        let res = Column {
            tiles,
            active_tile_idx: 0,
            width,
            is_full_width,
            display: ColumnDisplay::Normal,
            is_pending_fullscreen: mode.is_fullscreen(),
            is_pending_maximized: mode.is_maximized(),
        };
        assert(res@.tiles =~= seq![tile]);
        res
    }

    /// Takes a tile out of a column that keeps at least one other.
    pub fn remove_tile(&mut self, row: usize) -> (res: Tile<H>)
        requires
            old(self)@.wf(),
            old(self)@.tiles.len() > 1,
            row < old(self)@.tiles.len(),
        ensures
            res == old(self)@.tiles[row as int],
            final(self)@ == old(self)@.without(row as int),
    {
        let last: usize = self.tiles.len() - 1;
        if row < self.active_tile_idx || self.active_tile_idx == last {
            self.active_tile_idx = self.active_tile_idx - 1;
        }
        self.tiles.remove(row)
    }

    pub fn set_flags(&mut self, fullscreen: bool, maximized: bool)
        ensures
            final(self)@ == old(self)@.with_flags(fullscreen, maximized),
    {
        let mode = if fullscreen {
            SizingMode::Fullscreen
        } else if maximized {
            SizingMode::Maximized
        } else {
            SizingMode::Normal
        };
        self.is_pending_fullscreen = fullscreen;
        self.is_pending_maximized = maximized;
        let ghost before = self.tiles@;
        let ghost after = old(self)@.with_flags(fullscreen, maximized);
        let mut i: usize = 0;
        while i < self.tiles.len()
            invariant
                i <= self.tiles@.len(),
                self.tiles@.len() == before.len(),
                mode == column_mode(fullscreen, maximized),
                before == old(self)@.tiles,
                after == old(self)@.with_flags(fullscreen, maximized),
                self@ == (ColumnView { tiles: self.tiles@, ..after }),
                forall|j: int| 0 <= j < i ==> #[trigger] self.tiles@[j] == after.tiles[j],
                forall|j: int| i <= j < before.len() ==> #[trigger] self.tiles@[j] == before[j],
            decreases self.tiles@.len() - i,
        {
            self.tiles[i].window.follow_column(mode);
            i += 1;
        }
        assert(self.tiles@ =~= after.tiles);
    }
}

} // verus!
