//! Testing at run time that a layout is as it should be.

use vstd::prelude::*;

use crate::column::Column;
use crate::layout::{minimized_tiles, Layout};
use crate::minimized::MinimizedWindow;
use crate::monitor::Monitor;
use crate::ownership::{
    count, fits, lemma_count_at, lemma_count_unique, lemma_count_witness, Key,
};
use crate::spots::{lemma_spots, views, Spot};
use crate::tile::Tile;
use crate::types::{Host, SizingMode, WindowId};
use crate::workspace::Workspace;

verus! {

impl<H: Host> Column<H> {
    pub fn verify_invariants(&self) -> (res: bool)
        ensures
            res == self@.wf(),
    {
        if self.active_tile_idx >= self.tiles.len() {
            return false;
        }
        let mode = if self.is_pending_fullscreen {
            SizingMode::Fullscreen
        } else if self.is_pending_maximized {
            SizingMode::Maximized
        } else {
            SizingMode::Normal
        };
        let mut row: usize = 0;
        while row < self.tiles.len()
            invariant
                mode == self@.mode(),
                row <= self.tiles@.len(),
                forall|r: int|
                    0 <= r < row ==> (#[trigger] self@.tiles[r]).window.pending_sizing_mode == mode,
            decreases self.tiles@.len() - row,
        {
            if self.tiles[row].window.pending_sizing_mode != mode {
                assert(self@.tiles[row as int].window.pending_sizing_mode != mode);
                return false;
            }
            row += 1;
        }
        true
    }
}

impl<H: Host> Workspace<H> {
    pub fn verify_invariants(&self) -> (res: bool)
        ensures
            res == self@.wf(),
    {
        let mut column: usize = 0;
        while column < self.columns.len()
            invariant
                column <= self.columns@.len(),
                forall|c: int| 0 <= c < column ==> (#[trigger] self@.columns[c]).wf(),
            decreases self.columns@.len() - column,
        {
            assert(self@.columns[column as int] == self.columns@[column as int]@);
            if !self.columns[column].verify_invariants() {
                return false;
            }
            column += 1;
        }
        self.focus_is_sound() && self.floating_is_sound()
    }

    /// Whether one of the tiles has the focus.
    fn focus_is_sound(&self) -> (res: bool)
        ensures
            res == {
                &&& 0 <= self@.active_column_idx < self@.columns.len() || (self@.columns.len() == 0
                    && self@.active_column_idx == 0)
                &&& self@.floating_is_active ==> self@.floating.len() > 0
                &&& self@.columns.len() == 0 && self@.floating.len() > 0
                    ==> self@.floating_is_active
            },
    {
        let tiled = self.columns.len();
        let floating = self.floating.len();
        (self.active_column_idx < tiled || (tiled == 0 && self.active_column_idx == 0)) && (
        !self.floating_is_active || floating > 0) && (tiled > 0 || floating == 0
            || self.floating_is_active)
    }

    /// Whether one of the floating windows is the active one, and none has another sizing mode.
    fn floating_is_sound(&self) -> (res: bool)
        ensures
            res == {
                &&& self@.active_floating is None <==> self@.floating.len() == 0
                &&& self@.active_floating matches Some(id) ==> exists|i: int|
                    0 <= i < self@.floating.len() && (#[trigger] self@.floating[i]).window.id == id
                &&& forall|i: int|
                    0 <= i < self@.floating.len() ==> (
                    #[trigger] self@.floating[i]).window.pending_sizing_mode == SizingMode::Normal
            },
    {
        let mut found = false;
        let mut index: usize = 0;
        while index < self.floating.len()
            invariant
                index <= self.floating@.len(),
                found <==> (self@.active_floating matches Some(id) && exists|i: int|
                    0 <= i < index && (#[trigger] self@.floating[i]).window.id == id),
                forall|i: int|
                    0 <= i < index ==> (
                    #[trigger] self@.floating[i]).window.pending_sizing_mode == SizingMode::Normal,
            decreases self.floating@.len() - index,
        {
            let window = &self.floating[index].window;
            assert(self@.floating[index as int].window == *window);
            if !window.pending_sizing_mode.is_normal() {
                return false;
            }
            if let Some(id) = self.active_floating {
                if window.id == id {
                    found = true;
                }
            }
            index += 1;
        }
        match self.active_floating {
            Some(_) => found,
            None => self.floating.len() == 0,
        }
    }
}

impl<H: Host> Monitor<H> {
    pub fn verify_invariants(&self) -> (res: bool)
        ensures
            res == self@.wf(),
    {
        if self.active_workspace_idx >= self.workspaces.len() {
            return false;
        }
        let mut workspace: usize = 0;
        while workspace < self.workspaces.len()
            invariant
                workspace <= self.workspaces@.len(),
                forall|w: int| 0 <= w < workspace ==> (#[trigger] self@.workspaces[w]).wf(),
            decreases self.workspaces@.len() - workspace,
        {
            assert(self@.workspaces[workspace as int] == self.workspaces@[workspace as int]@);
            if !self.workspaces[workspace].verify_invariants() {
                return false;
            }
            workspace += 1;
        }
        let bottom = &self.workspaces[self.workspaces.len() - 1];
        assert(self@.workspaces.last() == bottom@);
        bottom.has_no_windows() && !bottom.is_named
    }
}

impl<H: Host> MinimizedWindow<H> {
    pub fn verify_invariants(&self) -> (res: bool)
        ensures
            res == self.wf(),
    {
        let tile = &self.removed.tile;
        let mode = tile.window.pending_sizing_mode;
        tile.window.minimized && !tile.minimize_animation_hidden && (mode == SizingMode::Fullscreen || self.maximized == (
        mode == SizingMode::Maximized))
    }
}

impl<H: Host> Layout<H> {
    /// Whether the layout is well-formed.
    pub fn verify_invariants(&self) -> (res: bool)
        ensures
            res == self@.wf(),
    {
        self.is_shaped() && self.queue_is_sound() && self.owns_every_window_once()
            && self.transitions_are_sound()
    }

    fn is_shaped(&self) -> (res: bool)
        ensures
            res == self@.shaped(),
    {
        let mut workspace: usize = 0;
        while workspace < self.orphans.len()
            invariant
                workspace <= self.orphans@.len(),
                forall|w: int| 0 <= w < workspace ==> (#[trigger] self@.orphans[w]).wf(),
            decreases self.orphans@.len() - workspace,
        {
            assert(self@.orphans[workspace as int] == self.orphans@[workspace as int]@);
            if !self.orphans[workspace].verify_invariants() {
                return false;
            }
            workspace += 1;
        }
        if self.monitors.len() > 0 {
            if self.active_monitor_idx >= self.monitors.len() || self.orphans.len() > 0 {
                return false;
            }
        } else if self.active_monitor_idx != 0 {
            return false;
        }
        self.monitors_are_sound()
    }

    /// Whether the monitors are as they should be, each with an output of its own.
    fn monitors_are_sound(&self) -> (res: bool)
        ensures
            res == {
                &&& forall|m: int|
                    0 <= m < self@.monitors.len() ==> (#[trigger] self@.monitors[m]).wf()
                &&& forall|m: int, n: int|
                    0 <= m < n < self@.monitors.len() ==> (
                    #[trigger] self@.monitors[m]).output.id != (
                    #[trigger] self@.monitors[n]).output.id
            },
    {
        let mut n: usize = 0;
        while n < self.monitors.len()
            invariant
                n <= self.monitors@.len(),
                forall|m: int| 0 <= m < n ==> (#[trigger] self@.monitors[m]).wf(),
                forall|a: int, b: int|
                    0 <= a < b < n ==> (#[trigger] self@.monitors[a]).output.id != (
                    #[trigger] self@.monitors[b]).output.id,
            decreases self.monitors@.len() - n,
        {
            assert(self@.monitors[n as int] == self.monitors@[n as int]@);
            if !self.monitors[n].verify_invariants() {
                return false;
            }
            let mut m: usize = 0;
            while m < n
                invariant
                    m <= n < self.monitors@.len(),
                    forall|a: int|
                        0 <= a < m ==> (#[trigger] self@.monitors[a]).output.id
                            != self@.monitors[n as int].output.id,
                decreases n - m,
            {
                assert(self@.monitors[m as int] == self.monitors@[m as int]@);
                assert(self@.monitors[n as int] == self.monitors@[n as int]@);
                if self.monitors[m].output.id == self.monitors[n].output.id {
                    return false;
                }
                m += 1;
            }
            n += 1;
        }
        true
    }

    fn queue_is_sound(&self) -> (res: bool)
        ensures
            res == self@.queue_wf(),
    {
        let mut index: usize = 0;
        while index < self.minimized_windows.len()
            invariant
                index <= self.minimized_windows@.len(),
                forall|i: int| 0 <= i < index ==> (#[trigger] self@.minimized_windows[i]).wf(),
            decreases self.minimized_windows@.len() - index,
        {
            if !self.minimized_windows[index].verify_invariants() {
                assert(!self@.minimized_windows[index as int].wf());
                return false;
            }
            index += 1;
        }
        true
    }

    /// Whether no two tiles are of the same window, and no window of the ordinary layout is marked
    /// as minimized.
    fn owns_every_window_once(&self) -> (res: bool)
        ensures
            res == {
                &&& forall|id: WindowId| #[trigger] count(self@.tiles(), Key::Id(id)) <= 1
                &&& count(self@.ordinary(), Key::Minimized) == 0
            },
    {
        let spots = self.spots();
        let ghost tiles = self@.tiles();
        let ghost ordinary = self@.ordinary().len();
        proof {
            lemma_spots(self@);
            assert(self@.spots().map_values(|s: Spot<int>| self@.tile(s)).len() == spots@.len());
            assert(tiles.len() == ordinary + minimized_tiles(self@.minimized_windows).len());
        }
        let end: usize = spots.len() - self.minimized_windows.len();
        let mut n: usize = 0;
        while n < spots.len()
            invariant
                n <= spots@.len(),
                views(spots@) == self@.spots(),
                tiles == self@.tiles(),
                tiles.len() == spots@.len(),
                end == ordinary,
                ordinary == self@.ordinary().len(),
                forall|i: int|
                    0 <= i < tiles.len() ==> self@.valid(#[trigger] self@.spots()[i]) && tiles[i]
                        == self@.tile(self@.spots()[i]),
                forall|i: int| 0 <= i < n && i < end ==> !(#[trigger] tiles[i]).window.minimized,
                forall|i: int, j: int|
                    0 <= i < j < n ==> (#[trigger] tiles[i]).window.id != (
                    #[trigger] tiles[j]).window.id,
            decreases spots@.len() - n,
        {
            assert(views(spots@)[n as int] == spots@[n as int]@);
            assert(self@.valid(self@.spots()[n as int]));
            let window = &self.tile_at(&spots[n]).window;
            if n < end && window.minimized {
                proof {
                    assert(self@.ordinary()[n as int] == tiles[n as int]);
                    lemma_count_at(self@.ordinary(), n as int, Key::Minimized);
                }
                return false;
            }
            let mut m: usize = 0;
            while m < n
                invariant
                    m <= n < spots@.len(),
                    views(spots@) == self@.spots(),
                    tiles == self@.tiles(),
                    tiles.len() == spots@.len(),
                    *window == tiles[n as int].window,
                    forall|i: int|
                        0 <= i < tiles.len() ==> self@.valid(#[trigger] self@.spots()[i])
                            && tiles[i] == self@.tile(self@.spots()[i]),
                    forall|i: int|
                        0 <= i < m ==> (#[trigger] tiles[i]).window.id != tiles[n as int].window.id,
                decreases n - m,
            {
                assert(views(spots@)[m as int] == spots@[m as int]@);
                assert(self@.valid(self@.spots()[m as int]));
                if self.tile_at(&spots[m]).window.id == window.id {
                    proof {
                        let key = Key::<H>::Id(window.id);
                        if count(tiles, key) <= 1 {
                            lemma_count_unique(tiles, m as int, n as int, key);
                        }
                    }
                    return false;
                }
                m += 1;
            }
            n += 1;
        }
        proof {
            assert forall|id: WindowId| #[trigger] count(tiles, Key::Id(id)) <= 1 by {
                lemma_distinct_count(tiles, id);
            }
            if count(self@.ordinary(), Key::Minimized) > 0 {
                let i = lemma_count_witness(self@.ordinary(), Key::Minimized);
                assert(self@.ordinary()[i] == tiles[i]);
            }
        }
        true
    }

    fn transitions_are_sound(&self) -> (res: bool)
        ensures
            res == self@.transitions_wf(),
    {
        let mut n: usize = 0;
        while n < self.minimize_animations.len()
            invariant
                n <= self.minimize_animations@.len(),
                forall|i: int, j: int|
                    0 <= i < j < n ==> (#[trigger] self@.minimize_animations[i]).id != (
                    #[trigger] self@.minimize_animations[j]).id,
            decreases self.minimize_animations@.len() - n,
        {
            let mut m: usize = 0;
            while m < n
                invariant
                    m <= n < self.minimize_animations@.len(),
                    forall|i: int|
                        0 <= i < m ==> (#[trigger] self@.minimize_animations[i]).id
                            != self@.minimize_animations[n as int].id,
                decreases n - m,
            {
                if self.minimize_animations[m].id == self.minimize_animations[n].id {
                    assert(self@.minimize_animations[m as int].id
                        == self@.minimize_animations[n as int].id);
                    return false;
                }
                m += 1;
            }
            n += 1;
        }
        if let Some(m) = &self.interactive_move {
            if m.removed.tile.minimize_animation_hidden {
                return false;
            }
        }
        self.hides_only_restored_windows()
    }

    /// Whether every hidden tile is being restored.
    fn hides_only_restored_windows(&self) -> (res: bool)
        ensures
            res == forall|id: WindowId| #[trigger]
                count(self@.tiles(), Key::Concealed(id)) > 0 ==> self@.is_restoring(id),
    {
        let spots = self.spots();
        let ghost tiles = self@.tiles();
        proof {
            lemma_spots(self@);
            assert(self@.spots().map_values(|s: Spot<int>| self@.tile(s)).len() == spots@.len());
        }
        let mut n: usize = 0;
        while n < spots.len()
            invariant
                n <= spots@.len(),
                views(spots@) == self@.spots(),
                tiles == self@.tiles(),
                tiles.len() == spots@.len(),
                forall|i: int|
                    0 <= i < tiles.len() ==> self@.valid(#[trigger] self@.spots()[i]) && tiles[i]
                        == self@.tile(self@.spots()[i]),
                forall|i: int|
                    0 <= i < n && (#[trigger] tiles[i]).minimize_animation_hidden
                        ==> self@.is_restoring(tiles[i].window.id),
            decreases spots@.len() - n,
        {
            assert(views(spots@)[n as int] == spots@[n as int]@);
            assert(self@.valid(self@.spots()[n as int]));
            let tile = self.tile_at(&spots[n]);
            if tile.minimize_animation_hidden && !self.restores(&tile.window.id) {
                proof {
                    lemma_count_at(tiles, n as int, Key::Concealed(tile.window.id));
                }
                return false;
            }
            n += 1;
        }
        proof {
            assert forall|id: WindowId| #[trigger]
                count(tiles, Key::Concealed(id)) > 0 implies self@.is_restoring(id) by {
                let i = lemma_count_witness(tiles, Key::Concealed(id));
                assert(fits(Key::Concealed(id), tiles[i]));
            }
        }
        true
    }

    /// Whether a restore transition of this window is running.
    fn restores(&self, id: &WindowId) -> (res: bool)
        ensures
            res == self@.is_restoring(*id),
    {
        let mut i: usize = 0;
        while i < self.minimize_animations.len()
            invariant
                i <= self.minimize_animations@.len(),
                forall|j: int|
                    0 <= j < i ==> !((#[trigger] self@.minimize_animations[j]).id == *id
                        && self@.minimize_animations[j].restoring),
            decreases self.minimize_animations@.len() - i,
        {
            let animation = &self.minimize_animations[i];
            assert(self@.minimize_animations[i as int] == *animation);
            if animation.id == *id && animation.restoring {
                return true;
            }
            i += 1;
        }
        false
    }
}

/// Among tiles of different windows there is at most one of each.
proof fn lemma_distinct_count<H: Host>(tiles: Seq<Tile<H>>, id: WindowId)
    requires
        forall|i: int, j: int|
            0 <= i < j < tiles.len() ==> (#[trigger] tiles[i]).window.id != (
            #[trigger] tiles[j]).window.id,
    ensures
        count(tiles, Key::Id(id)) <= 1,
    decreases tiles.len(),
{
    if tiles.len() > 0 {
        let rest = tiles.drop_last();
        lemma_distinct_count(rest, id);
        if count(rest, Key::Id(id)) > 0 {
            let i = lemma_count_witness(rest, Key::Id(id));
            assert(rest[i] == tiles[i]);
            assert(tiles[i].window.id != tiles[tiles.len() - 1].window.id);
        }
    }
}

} // verus!
