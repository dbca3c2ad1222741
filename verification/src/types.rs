//! Plain values shared by the whole layout: identifiers, sizes, output state and animation timing.

use vstd::prelude::*;

verus! {

/// Identity of a managed window. It never changes while the window lives.
pub type WindowId = u64;

/// Identity of a client surface.
pub type SurfaceId = u64;

/// Identity of an output.
pub type OutputId = u64;

/// Identity of a workspace.
pub type WorkspaceId = u64;

/// Identity of a publisher of Dock targets, such as one IPC connection.
pub type OwnerId = u64;

/// Identity of a mapped layer surface.
pub type LayerId = u64;

/// The types that the compositor supplies. The layout stores and moves their values and never
/// looks inside them.
pub trait Host: Sized {
    /// The live window object: client connection, buffers, everything that must survive
    /// minimization untouched.
    type Handle;

    /// A rectangle in output-local logical coordinates.
    type Rect: Copy;

    /// A logical size with a fractional part.
    type Extent: Copy;

    /// A position in the view of a workspace.
    type Position: Copy;

    /// The center of a floating window, relative to the working area.
    type Center: Copy;

    /// A displacement of a tile during an interactive move.
    type Offset: Copy;

    /// The configured width of a column.
    type Width: Copy;

    /// The drawing commands of a tile snapshot.
    type Contents;

    /// A tile snapshot that was drawn into a texture.
    type Image;
}

/// A window size in whole logical pixels.
#[derive(Clone, Copy, Debug, PartialEq, Eq, Structural)]
pub struct Size {
    pub w: i32,
    pub h: i32,
}

/// Identity of a resize transaction, which lets several windows change at once.
pub type TransactionId = u64;

/// A size that a window is asked for.
#[derive(Clone, Copy, Debug, PartialEq, Eq)]
pub struct SizeRequest {
    pub size: Size,
    /// The change of size is to be animated.
    pub animate: bool,
    pub transaction: Option<TransactionId>,
}

/// How a window is sized within its workspace.
#[derive(Clone, Copy, Debug, PartialEq, Eq, Structural)]
pub enum SizingMode {
    Normal,
    Maximized,
    Fullscreen,
}

impl SizingMode {
    pub fn is_normal(&self) -> (res: bool)
        ensures
            res == (*self == SizingMode::Normal),
    {
        *self == SizingMode::Normal
    }

    pub fn is_fullscreen(&self) -> (res: bool)
        ensures
            res == (*self == SizingMode::Fullscreen),
    {
        *self == SizingMode::Fullscreen
    }

    pub fn is_maximized(&self) -> (res: bool)
        ensures
            res == (*self == SizingMode::Maximized),
    {
        *self == SizingMode::Maximized
    }
}

/// Whether a window that enters the layout takes the focus.
#[derive(Clone, Copy, Debug, PartialEq, Eq, Structural)]
pub enum ActivateWindow {
    Yes,
    /// Let the workspace decide.
    Smart,
    No,
}

impl ActivateWindow {
    /// The decision, with `smart` in place of the undecided case.
    pub open spec fn decided(self, smart: bool) -> bool {
        match self {
            ActivateWindow::Yes => true,
            ActivateWindow::Smart => smart,
            ActivateWindow::No => false,
        }
    }

    pub fn map_smart(&self, smart: bool) -> (res: bool)
        ensures
            res == self.decided(smart),
    {
        match self {
            ActivateWindow::Yes => true,
            ActivateWindow::Smart => smart,
            ActivateWindow::No => false,
        }
    }
}

/// How the tiles of one column share it.
#[derive(Clone, Copy, Debug, PartialEq, Eq, Structural)]
pub enum ColumnDisplay {
    Normal,
    Tabbed,
}

/// Rotation and mirroring of an output.
#[derive(Clone, Copy, Debug, PartialEq, Eq, Structural)]
pub enum Transform {
    Normal,
    Rotated90,
    Rotated180,
    Rotated270,
    Flipped,
    Flipped90,
    Flipped180,
    Flipped270,
}

/// The configuration that a running transition relies on. The logical size of an output is
/// determined by these three values.
#[derive(Clone, Copy, Debug, PartialEq, Eq, Structural)]
pub struct OutputState {
    /// Size of the current mode in physical pixels.
    pub mode: Size,
    /// Fractional scale, as the bits of a double.
    pub scale: u64,
    pub transform: Transform,
}

/// A connected output.
#[derive(Clone, Copy, Debug, PartialEq, Eq, Structural)]
pub struct Output {
    pub id: OutputId,
    pub state: OutputState,
}

/// The side of an output on which a Dock sits.
#[derive(Clone, Copy, Debug, PartialEq, Eq, Structural)]
pub enum DockEdge {
    Left,
    Right,
    Top,
    Bottom,
}

/// How a transition deforms its snapshot.
#[derive(Clone, Copy, Debug, PartialEq, Eq, Structural)]
pub enum MinimizeEffect {
    Scale,
    Genie,
}

/// From which recipients a window's contents are withheld.
#[derive(Clone, Copy, Debug, PartialEq, Eq, Structural)]
pub enum BlockOutFrom {
    Screencast,
    ScreenCapture,
}

/// Who receives the rendered picture.
#[derive(Clone, Copy, Debug, PartialEq, Eq, Structural)]
pub enum RenderTarget {
    Output,
    Screencast,
    ScreenCapture,
}

impl RenderTarget {
    /// Whether contents withheld from `from` must not reach this recipient.
    pub open spec fn blocked(self, from: Option<BlockOutFrom>) -> bool {
        match from {
            None => false,
            Some(BlockOutFrom::Screencast) => self == RenderTarget::Screencast,
            Some(BlockOutFrom::ScreenCapture) => self != RenderTarget::Output,
        }
    }

    pub fn should_block_out(&self, from: Option<BlockOutFrom>) -> (res: bool)
        ensures
            res == self.blocked(from),
    {
        match from {
            None => false,
            Some(BlockOutFrom::Screencast) => *self == RenderTarget::Screencast,
            Some(BlockOutFrom::ScreenCapture) => *self != RenderTarget::Output,
        }
    }
}

/// The time that animations see, in nanoseconds.
#[derive(Clone, Copy, Debug, PartialEq, Eq, Structural)]
pub struct Clock {
    pub now: u64,
    /// Animations are switched off: every one counts as finished.
    pub complete_instantly: bool,
}

/// The time span of one animation, in nanoseconds.
#[derive(Clone, Copy, Debug, PartialEq, Eq, Structural)]
pub struct Animation {
    pub start: u64,
    pub duration: u64,
}

impl Animation {
    pub open spec fn done(self, clock: Clock) -> bool {
        clock.complete_instantly || clock.now >= self.start + self.duration
    }

    pub fn is_done(&self, clock: &Clock) -> (res: bool)
        ensures
            res == self.done(*clock),
    {
        clock.complete_instantly || (clock.now >= self.start && clock.now - self.start
            >= self.duration)
    }
}

/// The configured transition.
#[derive(Clone, Copy, Debug, PartialEq, Eq, Structural)]
pub struct Options {
    /// Length of a transition in nanoseconds; zero where transitions are off.
    pub window_minimize_duration: u64,
    pub window_minimize_effect: MinimizeEffect,
}

} // verus!
