//! A tile: a window together with its geometry and its running animations.

use vstd::prelude::*;

use crate::types::{Animation, BlockOutFrom, Clock, Host, Size};
use crate::window::Window;

verus! {

/// What a tile looked like just before it leaves the screen.
pub struct Snapshot<H: Host> {
    pub contents: H::Contents,
    pub blocked_out_contents: H::Contents,
    pub contents_with_blocked_out_bg: Option<H::Contents>,
    pub block_out_from: Option<BlockOutFrom>,
    pub size: H::Extent,
    /// The width or the height is not positive: there is nothing to draw.
    pub is_empty: bool,
}

pub struct Tile<H: Host> {
    pub window: Window<H>,
    pub tile_size: H::Extent,
    /// Where the compositor put the floating window since it entered its workspace.
    pub view_pos: Option<H::Position>,
    /// Center of the floating window, relative to the working area.
    pub floating_center: Option<H::Center>,
    /// The width that a column of this tile alone would have.
    pub natural_width: H::Width,
    /// The size to return to when the window floats again.
    pub floating_window_size: Option<Size>,
    /// The window goes back to floating when it leaves fullscreen or maximized.
    pub restore_to_floating: bool,
    /// A restore transition runs in place of the live tile.
    pub minimize_animation_hidden: bool,
    pub interactive_move_offset: Option<H::Offset>,
    pub open_animation: Option<Animation>,
    pub resize_animation: Option<Animation>,
    pub move_x_animation: Option<Animation>,
    pub move_y_animation: Option<Animation>,
    pub alpha_animation: Option<Animation>,
    pub unmap_snapshot: Option<Snapshot<H>>,
}

/// A tile on its way between places, with the column settings that it takes along.
pub struct RemovedTile<H: Host> {
    pub tile: Tile<H>,
    pub width: H::Width,
    pub is_full_width: bool,
    pub is_floating: bool,
}

/// An animation that has not finished yet.
pub open spec fn still_running(animation: Option<Animation>, clock: Clock) -> Option<Animation> {
    match animation {
        Some(a) if !a.done(clock) => Some(a),
        _ => None,
    }
}

pub fn drop_finished(animation: Option<Animation>, clock: &Clock) -> (res: Option<Animation>)
    ensures
        res == still_running(animation, *clock),
{
    match animation {
        Some(a) => if a.is_done(clock) {
            None
        } else {
            Some(a)
        },
        None => None,
    }
}

impl<H: Host> Tile<H> {
    /// The tile without the animations that have finished.
    pub open spec fn advanced(self, clock: Clock) -> Self {
        Tile {
            open_animation: still_running(self.open_animation, clock),
            resize_animation: still_running(self.resize_animation, clock),
            move_x_animation: still_running(self.move_x_animation, clock),
            move_y_animation: still_running(self.move_y_animation, clock),
            alpha_animation: still_running(self.alpha_animation, clock),
            ..self
        }
    }

    pub fn advance_animations(&mut self, clock: &Clock)
        ensures
            *final(self) == old(self).advanced(*clock),
    {
        self.open_animation = drop_finished(self.open_animation, clock);
        self.resize_animation = drop_finished(self.resize_animation, clock);
        self.move_x_animation = drop_finished(self.move_x_animation, clock);
        self.move_y_animation = drop_finished(self.move_y_animation, clock);
        self.alpha_animation = drop_finished(self.alpha_animation, clock);
    }

    pub fn stop_move_animations(&mut self)
        ensures
            *final(self) == (Tile { move_x_animation: None, move_y_animation: None, ..*old(self) }),
    {
        self.move_x_animation = None;
        self.move_y_animation = None;
    }

    pub fn take_unmap_snapshot(&mut self) -> (res: Option<Snapshot<H>>)
        ensures
            res == old(self).unmap_snapshot,
            *final(self) == (Tile { unmap_snapshot: None, ..*old(self) }),
    {
        self.unmap_snapshot.take()
    }

    /// The tile as it enters a workspace: its position there is still to be found.
    pub open spec fn placed(self, floating: bool) -> Self {
        Tile { restore_to_floating: floating, view_pos: None, ..self }
    }

    /// The tile as it is kept while minimized: at rest, not active, and marked as minimized. No
    /// restore transition runs in its place any more.
    pub open spec fn put_away(self, floating: bool) -> Self {
        Tile {
            window: Window {
                interactive_resize: None,
                activated: false,
                active_in_column: false,
                floating,
                minimized: true,
                configure_due: true,
                ..self.window
            },
            move_x_animation: None,
            move_y_animation: None,
            alpha_animation: None,
            interactive_move_offset: None,
            view_pos: None,
            minimize_animation_hidden: false,
            ..self
        }
    }

    /// The tile as it comes back: at the remembered center, and no longer marked as minimized.
    pub open spec fn brought_back(self, center: Option<H::Center>, clock: Clock) -> Self {
        Tile {
            window: Window { minimized: false, ..self.window },
            floating_center: center,
            ..self
        }.advanced(clock)
    }
}

} // verus!
