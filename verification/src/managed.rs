//! All managed windows, whether or not they take part in the layout.

use vstd::prelude::*;

use crate::laws::law_harmless_callbacks;
use crate::layout::{Layout, LayoutView, Slot};
use crate::monitor::Monitor;
use crate::retile::{lemma_replaced, lemma_with_tiles};
use crate::spots::{lemma_spots, views, Spot};
use crate::tile::Tile;
use crate::types::{Host, OutputId, Size, SurfaceId, WindowId, WorkspaceId};
use crate::window::Window;
use crate::workspace::Place;

verus! {

/// What is reported of a window's place.
pub struct WindowLayout<H: Host> {
    /// Column and row in the scrolling layout, counted from one.
    pub pos_in_scrolling_layout: Option<(usize, usize)>,
    /// The position of a floating window, once the compositor has found it.
    pub tile_pos_in_workspace_view: Option<H::Position>,
    pub tile_size: H::Extent,
    pub window_size: Size,
}

impl<H: Host> LayoutView<H> {
    /// The output that a spot is on.
    pub open spec fn output_of(self, spot: Spot<int>) -> Option<OutputId> {
        match spot {
            Spot::Moving => Some(self.interactive_move.unwrap().output),
            Spot::Held { slot, .. } => match slot {
                Slot::OnMonitor { monitor, .. } => Some(self.monitors[monitor].output.id),
                Slot::Orphan { .. } => None,
            },
            Spot::Minimized { .. } => None,
        }
    }

    /// The workspace that a spot is in.
    pub open spec fn workspace_of(self, spot: Spot<int>) -> Option<WorkspaceId> {
        match spot {
            Spot::Held { slot, .. } => Some(self.workspace(slot).id),
            _ => None,
        }
    }

    /// What is reported of a spot.
    pub open spec fn layout_of(self, spot: Spot<int>) -> WindowLayout<H> {
        WindowLayout {
            pos_in_scrolling_layout: match spot {
                Spot::Held { place: Place::Tiled { column, row }, .. } => Some(
                    ((column + 1) as usize, (row + 1) as usize),
                ),
                _ => None,
            },
            tile_pos_in_workspace_view: match spot {
                Spot::Held { place: Place::Floating { .. }, .. } => self.tile(spot).view_pos,
                _ => None,
            },
            tile_size: self.tile(spot).tile_size,
            window_size: self.tile(spot).window.size,
        }
    }

    /// The monitor that a spot is on.
    pub open spec fn home(self, spot: Spot<int>, monitor: int) -> bool {
        self.output_of(spot) matches Some(output) && self.shows(monitor, output)
    }

    /// The first tile with this surface is that of the spot with this number.
    pub open spec fn first_with(self, surface: SurfaceId, i: int) -> bool {
        &&& 0 <= i < self.spots().len()
        &&& self.tile(self.spots()[i]).window.surface == surface
        &&& forall|j: int|
            0 <= j < i ==> self.tile(#[trigger] self.spots()[j]).window.surface != surface
    }

    /// The first minimized window with this surface is in this entry.
    pub open spec fn first_minimized_with(self, surface: SurfaceId, index: int) -> bool {
        &&& 0 <= index < self.minimized_windows.len()
        &&& self.minimized_windows[index].removed.tile.window.surface == surface
        &&& forall|j: int|
            0 <= j < index ==> (
            #[trigger] self.minimized_windows[j]).removed.tile.window.surface != surface
    }

    /// The spot whose window is handed out for a change: minimized windows come first.
    pub open spec fn changes_at(self, surface: SurfaceId, spot: Spot<int>) -> bool {
        ||| spot matches Spot::Minimized { index } && self.first_minimized_with(surface, index)
        ||| {
            &&& forall|index: int| !self.first_minimized_with(surface, index)
            &&& exists|i: int| #[trigger] self.first_with(surface, i) && spot == self.spots()[i]
        }
    }

    /// The layout owns a window with this identity.
    pub open spec fn manages(self, id: WindowId) -> bool {
        exists|spot: Spot<int>| self.valid(spot) && (#[trigger] self.tile(spot)).window.id == id
    }
}

impl<H: Host> Layout<H> {
    fn output_at(&self, spot: &Spot<usize>) -> (res: Option<OutputId>)
        requires
            self@.valid(spot@),
        ensures
            res == self@.output_of(spot@),
    {
        match spot {
            Spot::Moving => Some(self.interactive_move.as_ref().unwrap().output),
            Spot::Held { slot, .. } => match slot {
                Slot::OnMonitor { monitor, .. } => Some(self.monitors[*monitor].output.id),
                Slot::Orphan { .. } => None,
            },
            Spot::Minimized { .. } => None,
        }
    }

    fn layout_at(&self, spot: &Spot<usize>) -> (res: WindowLayout<H>)
        requires
            self@.valid(spot@),
        ensures
            res == self@.layout_of(spot@),
    {
        let tile = self.tile_at(spot);
        let mut res = WindowLayout {
            pos_in_scrolling_layout: None,
            tile_pos_in_workspace_view: None,
            tile_size: tile.tile_size,
            window_size: tile.window.size,
        };
        if let Spot::Held { slot, place } = spot {
            match place {
                Place::Tiled { column, row } => {
                    let workspace = self.workspace_at(slot);
                    assert(workspace@.columns.len() == workspace.columns@.len());
                    assert(*column < workspace.columns.len());
                    assert(*row < workspace.columns@[*column as int].tiles.len());
                    res.pos_in_scrolling_layout = Some((*column + 1, *row + 1));
                },
                Place::Floating { .. } => {
                    res.tile_pos_in_workspace_view = tile.view_pos;
                },
            }
        }
        res
    }

    /// All live managed windows, including windows with no layout membership.
    pub fn managed_windows(&self) -> (res: Vec<(Option<&Monitor<H>>, &Window<H>)>)
        ensures
            res@.len() == self@.spots().len(),
            forall|i: int|
                0 <= i < res@.len() ==> *(#[trigger] res@[i]).1 == self@.tile(
                    self@.spots()[i],
                ).window,
            forall|i: int|
                #![trigger res@[i]]
                0 <= i < res@.len() ==> match res@[i].0 {
                    Some(found) => exists|monitor: int| #[trigger]
                        self@.home(self@.spots()[i], monitor) && *found == self.monitors@[monitor],
                    None => forall|monitor: int| !self@.home(self@.spots()[i], monitor),
                },
    {
        let spots = self.spots();
        proof {
            lemma_spots(self@);
        }
        let mut res: Vec<(Option<&Monitor<H>>, &Window<H>)> = Vec::new();
        let mut n: usize = 0;
        while n < spots.len()
            invariant
                n <= spots@.len(),
                views(spots@) == self@.spots(),
                forall|j: int| 0 <= j < self@.spots().len() ==> self@.valid(
                    #[trigger] self@.spots()[j],
                ),
                res@.len() == n,
                forall|i: int|
                    0 <= i < n ==> *(#[trigger] res@[i]).1 == self@.tile(
                        self@.spots()[i],
                    ).window,
                forall|i: int|
                    #![trigger res@[i]]
                    0 <= i < n ==> match res@[i].0 {
                        Some(found) => exists|monitor: int| #[trigger]
                            self@.home(self@.spots()[i], monitor) && *found
                                == self.monitors@[monitor],
                        None => forall|monitor: int| !self@.home(self@.spots()[i], monitor),
                    },
            decreases spots@.len() - n,
        {
            assert(views(spots@)[n as int] == spots@[n as int]@);
            let ghost spot = self@.spots()[n as int];
            assert(self@.valid(spot));
            let monitor = match self.output_at(&spots[n]) {
                Some(output) => match self.find_monitor(&output) {
                    Some(monitor) => {
                        assert(self@.home(spot, monitor as int));
                        Some(&self.monitors[monitor])
                    },
                    None => None,
                },
                None => None,
            };
            res.push((monitor, &self.tile_at(&spots[n]).window));
            n += 1;
        }
        res
    }

    /// Calls back for every managed window. What the calls return is collected in order.
    pub fn with_managed_windows<
        T,
        F: FnMut(&Window<H>, Option<OutputId>, Option<WorkspaceId>, WindowLayout<H>) -> T,
    >(&self, mut f: F) -> (res: Vec<T>)
        requires
            forall|window: Window<H>,
                output: Option<OutputId>,
                workspace: Option<WorkspaceId>,
                layout: WindowLayout<H>| #[trigger]
                call_requires(f, (&window, output, workspace, layout)),
        ensures
            res@.len() == self@.spots().len(),
            forall|i: int|
                #![trigger res@[i]]
                0 <= i < res@.len() ==> {
                    let spot = self@.spots()[i];
                    call_ensures(
                        f,
                        (
                            &self@.tile(spot).window,
                            self@.output_of(spot),
                            self@.workspace_of(spot),
                            self@.layout_of(spot),
                        ),
                        res@[i],
                    )
                },
    {
        let ghost g = f;
        let spots = self.spots();
        proof {
            lemma_spots(self@);
        }
        let mut res: Vec<T> = Vec::new();
        let mut n: usize = 0;
        while n < spots.len()
            invariant
                f == g,
                n <= spots@.len(),
                views(spots@) == self@.spots(),
                forall|j: int| 0 <= j < self@.spots().len() ==> self@.valid(
                    #[trigger] self@.spots()[j],
                ),
                forall|window: Window<H>,
                    output: Option<OutputId>,
                    workspace: Option<WorkspaceId>,
                    layout: WindowLayout<H>| #[trigger]
                    call_requires(f, (&window, output, workspace, layout)),
                res@.len() == n,
                forall|i: int|
                    #![trigger res@[i]]
                    0 <= i < n ==> {
                        let spot = self@.spots()[i];
                        call_ensures(
                            g,
                            (
                                &self@.tile(spot).window,
                                self@.output_of(spot),
                                self@.workspace_of(spot),
                                self@.layout_of(spot),
                            ),
                            res@[i],
                        )
                    },
            decreases spots@.len() - n,
        {
            assert(views(spots@)[n as int] == spots@[n as int]@);
            assert(self@.valid(self@.spots()[n as int]));
            let workspace = match &spots[n] {
                Spot::Held { slot, .. } => Some(self.workspace_at(slot).id),
                _ => None,
            };
            let output = self.output_at(&spots[n]);
            let layout = self.layout_at(&spots[n]);
            res.push(f(&self.tile_at(&spots[n]).window, output, workspace, layout));
            n += 1;
        }
        res
    }

    pub fn find_managed_window_and_output(&self, surface: &SurfaceId) -> (res: Option<
        (&Window<H>, Option<OutputId>),
    >)
        ensures
            match res {
                Some((window, output)) => exists|i: int| #[trigger]
                    self@.first_with(*surface, i) && *window == self@.tile(self@.spots()[i]).window
                        && output == self@.output_of(self@.spots()[i]),
                None => forall|i: int| !self@.first_with(*surface, i),
            },
    {
        let spots = self.spots();
        match self.find_surface(&spots, surface) {
            Some(i) => {
                assert(views(spots@)[i as int] == spots@[i as int]@);
                proof {
                    lemma_spots(self@);
                    assert(self@.valid(self@.spots()[i as int]));
                }
                Some((&self.tile_at(&spots[i]).window, self.output_at(&spots[i])))
            },
            None => None,
        }
    }

    pub fn find_managed_window_and_output_mut(&mut self, surface: &SurfaceId) -> (res: Option<
        (&mut Window<H>, Option<OutputId>),
    >)
        ensures
            match res {
                Some((window, output)) => exists|spot: Spot<int>|
                    {
                        &&& #[trigger] old(self)@.changes_at(*surface, spot)
                        &&& *window == old(self)@.tile(spot).window
                        &&& output == old(self)@.output_of(spot)
                        &&& final(self)@ == old(self)@.with_tile(
                            spot,
                            Tile { window: *final(window), ..old(self)@.tile(spot) },
                        )
                    },
                None => {
                    &&& final(self)@ == old(self)@
                    &&& forall|spot: Spot<int>| !old(self)@.changes_at(*surface, spot)
                },
            },
            old(self)@.wf() && (res matches Some((window, _)) ==> final(window).keeps_place(
                *window,
            )) ==> final(self)@.wf(),
    {
        let mut index: usize = 0;
        while index < self.minimized_windows.len()
            invariant
                self@ == old(self)@,
                index <= self.minimized_windows@.len(),
                forall|j: int|
                    0 <= j < index ==> (
                    #[trigger] self.minimized_windows@[j]).removed.tile.window.surface != *surface,
            decreases self.minimized_windows@.len() - index,
        {
            if self.minimized_windows[index].removed.tile.window.surface == *surface {
                let spot = Spot::Minimized { index };
                proof {
                    assert(old(self)@.changes_at(*surface, spot@));
                    lemma_window_replaced(old(self)@, spot@);
                }
                let tile = self.tile_at_mut(&spot);
                return Some((&mut tile.window, None));
            }
            index += 1;
        }
        let spots = self.spots();
        match self.find_surface(&spots, surface) {
            Some(i) => {
                assert(views(spots@)[i as int] == spots@[i as int]@);
                proof {
                    lemma_spots(self@);
                    assert(self@.valid(self@.spots()[i as int]));
                    assert(self@.first_with(*surface, i as int));
                    assert(old(self)@.changes_at(*surface, spots@[i as int]@));
                    lemma_window_replaced(old(self)@, spots@[i as int]@);
                }
                let output = self.output_at(&spots[i]);
                let tile = self.tile_at_mut(&spots[i]);
                Some((&mut tile.window, output))
            },
            None => None,
        }
    }

    /// Calls back for every managed window, with leave to change it.
    pub fn with_managed_windows_mut<F: FnMut(&mut Window<H>, Option<OutputId>)>(&mut self, mut f: F)
        requires
            forall|window: &mut Window<H>, output: Option<OutputId>| #[trigger]
                call_requires(f, (window, output)),
        ensures
            exists|tiles: Seq<Tile<H>>|
                {
                    &&& tiles.len() == old(self)@.spots().len()
                    &&& final(self)@ == #[trigger] old(self)@.with_tiles(
                        tiles,
                        tiles.len() as int,
                    )
                    &&& forall|i: int|
                        #![trigger tiles[i]]
                        0 <= i < tiles.len() ==> {
                            let spot = old(self)@.spots()[i];
                            &&& tiles[i] == (Tile {
                                window: tiles[i].window,
                                ..old(self)@.tile(spot)
                            })
                            &&& exists|r: &mut Window<H>|
                                *r == old(self)@.tile(spot).window && *final(r) == tiles[i].window
                                    && #[trigger] call_ensures(
                                    f,
                                    (r, old(self)@.output_of(spot)),
                                    (),
                                )
                        }
                },
            old(self)@.wf() && (forall|window: &mut Window<H>, output: Option<OutputId>| #[trigger]
                call_ensures(f, (window, output), ()) ==> final(window).keeps_place(*window))
                ==> final(self)@.wf(),
    {
        let ghost g = f;
        let ghost l = self@;
        let ghost mut tiles: Seq<Tile<H>> = Seq::empty();
        let spots = self.spots();
        proof {
            lemma_spots(l);
        }
        let mut n: usize = 0;
        while n < spots.len()
            invariant
                f == g,
                n <= spots@.len(),
                views(spots@) == l.spots(),
                tiles.len() == n,
                self@ == l.with_tiles(tiles, n as int),
                forall|window: &mut Window<H>, output: Option<OutputId>| #[trigger]
                    call_requires(f, (window, output)),
                forall|i: int|
                    #![trigger tiles[i]]
                    0 <= i < n ==> {
                        let spot = l.spots()[i];
                        &&& tiles[i] == (Tile { window: tiles[i].window, ..l.tile(spot) })
                        &&& exists|r: &mut Window<H>|
                            *r == l.tile(spot).window && *final(r) == tiles[i].window
                                && #[trigger] call_ensures(g, (r, l.output_of(spot)), ())
                    },
            decreases spots@.len() - n,
        {
            let ghost spot = l.spots()[n as int];
            proof {
                lemma_spots(l);
                lemma_with_tiles(l, tiles, n as int);
                lemma_outputs_kept(l, tiles, n as int, spot);
                assert(views(spots@)[n as int] == spots@[n as int]@);
                assert(l.valid(spot));
            }
            let output = self.output_at(&spots[n]);
            let tile = self.tile_at_mut(&spots[n]);
            let ghost before = *tile;
            f(&mut tile.window, output);
            let ghost after = *tile;
            proof {
                let more = tiles.push(after);
                lemma_with_tiles_prefix(l, tiles, more, n as int);
                tiles = more;
            }
            n += 1;
        }
        proof {
            lemma_callbacks(l, tiles);
        }
    }

    /// Finds the first tile with a surface.
    fn find_surface(&self, spots: &Vec<Spot<usize>>, surface: &SurfaceId) -> (res: Option<usize>)
        requires
            views(spots@) == self@.spots(),
        ensures
            match res {
                Some(i) => i < spots@.len() && self@.first_with(*surface, i as int),
                None => forall|i: int| !self@.first_with(*surface, i),
            },
    {
        proof {
            lemma_spots(self@);
        }
        let mut i: usize = 0;
        while i < spots.len()
            invariant
                i <= spots@.len(),
                views(spots@) == self@.spots(),
                forall|j: int| 0 <= j < self@.spots().len() ==> self@.valid(
                    #[trigger] self@.spots()[j],
                ),
                forall|j: int|
                    0 <= j < i ==> self@.tile(#[trigger] self@.spots()[j]).window.surface
                        != *surface,
            decreases spots@.len() - i,
        {
            assert(views(spots@)[i as int] == spots@[i as int]@);
            assert(self@.valid(self@.spots()[i as int]));
            if self.tile_at(&spots[i]).window.surface == *surface {
                return Some(i);
            }
            i += 1;
        }
        None
    }

    pub fn has_managed_window(&self, id: &WindowId) -> (res: bool)
        ensures
            res == self@.manages(*id),
    {
        let spots = self.spots();
        proof {
            lemma_spots(self@);
        }
        let mut i: usize = 0;
        while i < spots.len()
            invariant
                i <= spots@.len(),
                views(spots@) == self@.spots(),
                forall|j: int| 0 <= j < self@.spots().len() ==> self@.valid(
                    #[trigger] self@.spots()[j],
                ),
                forall|j: int|
                    0 <= j < i ==> self@.tile(#[trigger] self@.spots()[j]).window.id != *id,
            decreases spots@.len() - i,
        {
            assert(views(spots@)[i as int] == spots@[i as int]@);
            assert(self@.valid(self@.spots()[i as int]));
            if self.tile_at(&spots[i]).window.id == *id {
                return true;
            }
            i += 1;
        }
        assert forall|spot: Spot<int>| self@.valid(spot) implies (
        #[trigger] self@.tile(spot)).window.id != *id by {
            assert(self@.spots().contains(spot));
            let j = choose|j: int| 0 <= j < self@.spots().len() && self@.spots()[j] == spot;
            assert(self@.tile(self@.spots()[j]).window.id != *id);
        }
        false
    }
}

/// A changed window that the layout still goes by keeps the layout well-formed.
proof fn lemma_window_replaced<H: Host>(l: LayoutView<H>, spot: Spot<int>)
    requires
        l.valid(spot),
    ensures
        l.wf() ==> forall|tile: Tile<H>|
            tile.window.keeps_place(l.tile(spot).window) && tile.minimize_animation_hidden
                == l.tile(spot).minimize_animation_hidden ==> (#[trigger] l.with_tile(
                spot,
                tile,
            )).wf(),
{
    if l.wf() {
        assert forall|tile: Tile<H>|
            tile.window.keeps_place(l.tile(spot).window) && tile.minimize_animation_hidden
                == l.tile(spot).minimize_animation_hidden implies (#[trigger] l.with_tile(
            spot,
            tile,
        )).wf() by {
            lemma_replaced(l, spot, tile);
        }
    }
}

/// Changed windows that the layout still goes by keep the layout well-formed.
proof fn lemma_callbacks<H: Host>(l: LayoutView<H>, tiles: Seq<Tile<H>>)
    requires
        tiles.len() == l.spots().len(),
        forall|i: int|
            0 <= i < tiles.len() ==> #[trigger] tiles[i] == (Tile {
                window: tiles[i].window,
                ..l.tile(l.spots()[i])
            }),
    ensures
        l.wf() && (forall|i: int|
            0 <= i < tiles.len() ==> (#[trigger] tiles[i]).window.keeps_place(
                l.tile(l.spots()[i]).window,
            )) ==> l.with_tiles(tiles, tiles.len() as int).wf(),
{
    lemma_spots(l);
    if l.wf() && forall|i: int|
        0 <= i < tiles.len() ==> (#[trigger] tiles[i]).window.keeps_place(
            l.tile(l.spots()[i]).window,
        ) {
        assert forall|i: int| 0 <= i < tiles.len() implies (
        #[trigger] tiles[i]).window.keeps_place(l.tiles()[i].window)
            && tiles[i].minimize_animation_hidden == l.tiles()[i].minimize_animation_hidden by {
            assert(l.tiles()[i] == l.tile(l.spots()[i]));
        }
        law_harmless_callbacks(l, tiles);
    }
}

/// New tiles leave the outputs alone.
proof fn lemma_outputs_kept<H: Host>(
    l: LayoutView<H>,
    tiles: Seq<Tile<H>>,
    n: int,
    spot: Spot<int>,
)
    requires
        0 <= n <= l.spots().len(),
        tiles.len() >= n,
        l.valid(spot),
    ensures
        l.with_tiles(tiles, n).output_of(spot) == l.output_of(spot),
    decreases n,
{
    if n > 0 {
        lemma_outputs_kept(l, tiles, n - 1, spot);
        lemma_with_tiles(l, tiles, n - 1);
        lemma_spots(l);
        assert(l.valid(l.spots()[n - 1]));
    }
}

/// Only the first tiles matter to the first spots.
proof fn lemma_with_tiles_prefix<H: Host>(
    l: LayoutView<H>,
    a: Seq<Tile<H>>,
    b: Seq<Tile<H>>,
    n: int,
)
    requires
        0 <= n <= a.len() <= b.len(),
        forall|i: int| 0 <= i < n ==> #[trigger] a[i] == b[i],
    ensures
        l.with_tiles(a, n) == l.with_tiles(b, n),
    decreases n,
{
    if n > 0 {
        lemma_with_tiles_prefix(l, a, b, n - 1);
        assert(a[n - 1] == b[n - 1]);
    }
}

} // verus!
