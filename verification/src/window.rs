//! A managed window: its identity, the compositor's live object and the state that the layout
//! asks the client for.

use vstd::prelude::*;

use crate::types::{
    Host, Size, SizeRequest, SizingMode, SurfaceId, TransactionId, WindowId,
};

verus! {

pub struct Window<H: Host> {
    pub id: WindowId,
    pub surface: SurfaceId,
    pub handle: H::Handle,
    /// The size that the client last committed.
    pub size: Size,
    /// The size last asked for, until the client answers.
    pub requested_size: Option<SizeRequest>,
    pub pending_sizing_mode: SizingMode,
    /// The client believes that it is fullscreen while it is not.
    pub pending_windowed_fullscreen: bool,
    pub activated: bool,
    pub active_in_column: bool,
    pub floating: bool,
    pub minimized: bool,
    /// The edges being dragged in an interactive resize.
    pub interactive_resize: Option<u32>,
    /// The pending state goes out at once, without waiting for the next refresh.
    pub configure_due: bool,
}

impl<H: Host> Window<H> {
    /// What the layout goes by is the same: identity, minimized mark and sizing mode.
    pub open spec fn keeps_place(self, before: Self) -> bool {
        &&& self.id == before.id
        &&& self.minimized == before.minimized
        &&& self.pending_sizing_mode == before.pending_sizing_mode
    }

    /// The window after a request for a size and a sizing mode.
    pub open spec fn requested(self, request: SizeRequest, mode: SizingMode) -> Self {
        Window {
            requested_size: Some(request),
            pending_sizing_mode: mode,
            pending_windowed_fullscreen: self.pending_windowed_fullscreen && mode
                != SizingMode::Fullscreen,
            ..self
        }
    }

    /// The window after its column chose a sizing mode; the compositor computes the size.
    pub open spec fn follows(self, mode: SizingMode) -> Self {
        Window {
            requested_size: None,
            pending_sizing_mode: mode,
            pending_windowed_fullscreen: self.pending_windowed_fullscreen && mode
                != SizingMode::Fullscreen,
            ..self
        }
    }

    /// The same live window: identity, surface and object agree.
    pub open spec fn same_object(self, other: Self) -> bool {
        &&& self.id == other.id
        &&& self.surface == other.surface
        &&& self.handle == other.handle
    }

    pub fn follow_column(&mut self, mode: SizingMode)
        ensures
            *final(self) == old(self).follows(mode),
    {
        self.requested_size = None;
        self.pending_sizing_mode = mode;
        if mode.is_fullscreen() {
            self.pending_windowed_fullscreen = false;
        }
    }

    pub fn request_size(
        &mut self,
        size: Size,
        mode: SizingMode,
        animate: bool,
        transaction: Option<TransactionId>,
    )
        ensures
            *final(self) == old(self).requested(SizeRequest { size, animate, transaction }, mode),
    {
        self.requested_size = Some(SizeRequest { size, animate, transaction });
        self.pending_sizing_mode = mode;
        if mode.is_fullscreen() {
            self.pending_windowed_fullscreen = false;
        }
    }
}

} // verus!
