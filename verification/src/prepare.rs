//! Preparing a transition: the snapshot, its way on the output, and its pictures.

use vstd::prelude::*;

use crate::advance::OnScreen;
use crate::animation_laws::law_dock_end;
use crate::layout::{Layout, LayoutView, Slot};
use crate::minimize_animation::MinimizeAnimation;
use crate::retile::lemma_replaced;
use crate::spots::Spot;
use crate::targets::AnimationTarget;
use crate::tile::{Snapshot, Tile};
use crate::types::{
    Animation, DockEdge, Host, MinimizeEffect, OutputId, OutputState, OwnerId, WindowId,
};
use crate::workspace::Place;

verus! {

/// A transition whose pictures are still to be drawn.
pub struct PreparedAnimation<H: Host> {
    pub id: WindowId,
    pub output: OutputId,
    pub output_state: OutputState,
    pub restoring: bool,
    pub window_rect: H::Rect,
    pub snapshot: Snapshot<H>,
    pub anim: Animation,
    /// The hint for the Dock end.
    pub target: Option<AnimationTarget<H>>,
    /// The configured effect.
    pub effect: MinimizeEffect,
}

/// Where a transition leads on its output.
pub struct TransitionEnds<H: Host> {
    pub output: OutputId,
    pub output_state: OutputState,
    pub window_rect: H::Rect,
    pub target: Option<AnimationTarget<H>>,
}

impl<H: Host> LayoutView<H> {
    /// A transition that would begin now.
    pub open spec fn transition(self) -> Animation {
        Animation { start: self.clock.now, duration: self.options.window_minimize_duration }
    }

    /// Everything that a transition needs is there: a snapshot with something in it, a tile on
    /// screen, and time to run.
    pub open spec fn can_animate(
        self,
        screen: Seq<OnScreen<H>>,
        id: WindowId,
        snapshot: Option<Snapshot<H>>,
    ) -> bool {
        &&& snapshot matches Some(s) && !s.is_empty
        &&& self.geometry(screen, id) is Some
        &&& !self.transition().done(self.clock)
    }

    /// The layout after the tile at a place gave up its snapshot.
    pub open spec fn with_snapshot_taken(self, slot: Slot<int>, place: Place<int>) -> Self {
        let spot = Spot::Held { slot, place };
        self.with_tile(spot, Tile { unmap_snapshot: None, ..self.tile(spot) })
    }

    /// The layout after the compositor drew a snapshot of the tile at a place.
    pub open spec fn with_snapshot_stored(
        self,
        slot: Slot<int>,
        place: Place<int>,
        snapshot: Snapshot<H>,
    ) -> Self {
        let spot = Spot::Held { slot, place };
        self.with_tile(spot, Tile { unmap_snapshot: Some(snapshot), ..self.tile(spot) })
    }

    /// The window is on screen at the one end, and the latest hint is for the other.
    pub open spec fn connects(
        self,
        screen: Seq<OnScreen<H>>,
        id: WindowId,
        live: Seq<OwnerId>,
        ends: TransitionEnds<H>,
    ) -> bool {
        &&& self.geometry(screen, id) == Some((ends.output, ends.window_rect))
        &&& exists|monitor: int| #[trigger]
            self.shows(monitor, ends.output) && self.monitors[monitor].output.state
                == ends.output_state
        &&& self.hinted(live, id, ends.output, ends.target)
    }

    /// The prepared transition fits the layout.
    pub open spec fn prepares(
        self,
        screen: Seq<OnScreen<H>>,
        id: WindowId,
        restoring: bool,
        live: Seq<OwnerId>,
        prepared: PreparedAnimation<H>,
    ) -> bool {
        &&& prepared.id == id
        &&& prepared.restoring == restoring
        &&& prepared.anim == self.transition()
        &&& prepared.effect == self.options.window_minimize_effect
        &&& self.connects(
            screen,
            id,
            live,
            TransitionEnds {
                output: prepared.output,
                output_state: prepared.output_state,
                window_rect: prepared.window_rect,
                target: prepared.target,
            },
        )
    }
}

impl<H: Host> PreparedAnimation<H> {
    /// The Dock end of the transition: the hinted one where it can be located and lies on the
    /// output, or else the bottom center.
    pub open spec fn ends_at<
        L: FnOnce(&AnimationTarget<H>) -> Option<H::Rect>,
        V: FnOnce(OutputId, H::Rect, DockEdge) -> Option<H::Rect>,
        C: FnOnce(OutputId) -> H::Rect,
    >(self, on_layer: L, on_output: V, bottom_center: C, dock: (H::Rect, DockEdge)) -> bool {
        ||| self.target matches Some(target) && exists|layer: Option<H::Rect>|
            {
                &&& target.layer is Some ==> call_ensures(on_layer, (&target,), layer)
                &&& #[trigger] target.located(layer) matches Some(rect) && call_ensures(
                    on_output,
                    (self.output, rect, target.edge),
                    Some(dock.0),
                )
                &&& dock.1 == target.edge
            }
        ||| {
            &&& self.target matches Some(target) ==> exists|layer: Option<H::Rect>|
                {
                    &&& target.layer is Some ==> call_ensures(on_layer, (&target,), layer)
                    &&& #[trigger] target.located(layer) matches Some(rect) ==> call_ensures(
                        on_output,
                        (self.output, rect, target.edge),
                        None,
                    )
                }
            &&& call_ensures(bottom_center, (self.output,), dock.0)
            &&& dock.1 == DockEdge::Bottom
        }
    }

    pub fn dock_end<
        L: FnOnce(&AnimationTarget<H>) -> Option<H::Rect>,
        V: FnOnce(OutputId, H::Rect, DockEdge) -> Option<H::Rect>,
        C: FnOnce(OutputId) -> H::Rect,
    >(&self, on_layer: L, on_output: V, bottom_center: C) -> (res: (H::Rect, DockEdge))
        requires
            forall|target: AnimationTarget<H>| #[trigger] call_requires(on_layer, (&target,)),
            forall|rect: H::Rect, edge: DockEdge| #[trigger]
                call_requires(on_output, (self.output, rect, edge)),
            call_requires(bottom_center, (self.output,)),
        ensures
            self.ends_at(on_layer, on_output, bottom_center, res),
    {
        if let Some(target) = &self.target {
            let layer = if target.layer.is_some() {
                on_layer(target)
            } else {
                None
            };
            if let Some(rect) = target.locate(layer) {
                if let Some(rect) = on_output(self.output, rect, target.edge) {
                    return (rect, target.edge);
                }
            }
        }
        (bottom_center(self.output), DockEdge::Bottom)
    }

    /// The effect that can be drawn.
    pub open spec fn drawn_effect(self, genie_available: bool) -> MinimizeEffect {
        if genie_available {
            self.effect
        } else {
            MinimizeEffect::Scale
        }
    }

    /// The transition shows the three pictures of its snapshot, and otherwise what was prepared.
    pub open spec fn baked_as<B: FnMut(H::Contents) -> Option<H::Image>>(
        self,
        dock: (H::Rect, DockEdge),
        genie_available: bool,
        bake: B,
        animation: MinimizeAnimation<H>,
    ) -> bool {
        &&& animation.id == self.id
        &&& animation.output == self.output
        &&& animation.restoring == self.restoring
        &&& animation.window_rect == self.window_rect
        &&& animation.dock_rect == dock.0
        &&& animation.edge == dock.1
        &&& animation.effect == self.drawn_effect(genie_available)
        &&& animation.source_size == self.snapshot.size
        &&& animation.output_state == self.output_state
        &&& animation.block_out_from == self.snapshot.block_out_from
        &&& animation.anim == self.anim
        &&& call_ensures(bake, (self.snapshot.contents,), Some(animation.normal))
        &&& call_ensures(bake, (self.snapshot.blocked_out_contents,), Some(animation.blocked))
        &&& match self.snapshot.contents_with_blocked_out_bg {
            Some(contents) => animation.blocked_background is Some && call_ensures(
                bake,
                (contents,),
                animation.blocked_background,
            ),
            None => animation.blocked_background is None,
        }
    }

    /// One of the pictures could not be drawn.
    pub open spec fn bake_failed<B: FnMut(H::Contents) -> Option<H::Image>>(self, bake: B)
        -> bool {
        ||| call_ensures(bake, (self.snapshot.contents,), None)
        ||| call_ensures(bake, (self.snapshot.blocked_out_contents,), None)
        ||| self.snapshot.contents_with_blocked_out_bg matches Some(contents) && call_ensures(
            bake,
            (contents,),
            None,
        )
    }
}

impl<H: Host> MinimizeAnimation<H> {
    /// Draws the pictures of a prepared transition.
    pub fn new<B: FnMut(H::Contents) -> Option<H::Image>>(
        prepared: PreparedAnimation<H>,
        dock: (H::Rect, DockEdge),
        genie_available: bool,
        mut bake: B,
    ) -> (res: Option<Self>)
        requires
            forall|contents: H::Contents| #[trigger] call_requires(bake, (contents,)),
        ensures
            match res {
                Some(animation) => prepared.baked_as(dock, genie_available, bake, animation),
                None => prepared.bake_failed(bake),
            },
    {
        let effect = if genie_available {
            prepared.effect
        } else {
            MinimizeEffect::Scale
        };
        let normal = match bake(prepared.snapshot.contents) {
            Some(image) => image,
            None => {
                return None;
            },
        };
        let blocked = match bake(prepared.snapshot.blocked_out_contents) {
            Some(image) => image,
            None => {
                return None;
            },
        };
        let blocked_background = match prepared.snapshot.contents_with_blocked_out_bg {
            Some(contents) => match bake(contents) {
                Some(image) => Some(image),
                None => {
                    return None;
                },
            },
            None => None,
        };
        Some(
            MinimizeAnimation {
                id: prepared.id,
                output: prepared.output,
                restoring: prepared.restoring,
                window_rect: prepared.window_rect,
                dock_rect: dock.0,
                effect,
                edge: dock.1,
                source_size: prepared.snapshot.size,
                output_state: prepared.output_state,
                normal,
                blocked,
                blocked_background,
                block_out_from: prepared.snapshot.block_out_from,
                anim: prepared.anim,
            },
        )
    }
}

impl<H: Host> Layout<H> {
    /// Keeps a snapshot of a window for the transition that is about to be prepared. Returns
    /// whether the window is in a workspace.
    pub fn store_unmap_snapshot(&mut self, id: &WindowId, snapshot: Snapshot<H>) -> (res: bool)
        requires
            old(self)@.wf(),
        ensures
            final(self)@.wf(),
            res == old(self)@.holds(*id),
            res ==> exists|slot: Slot<int>, place: Place<int>|
                {
                    &&& #[trigger] old(self)@.holds_at(slot, place, *id)
                    &&& final(self)@ == old(self)@.with_snapshot_stored(slot, place, snapshot)
                },
            !res ==> final(self)@ == old(self)@,
    {
        match self.find_slot(id) {
            Some((slot, place)) => {
                let spot = Spot::Held { slot, place };
                proof {
                    let tile = self@.tile(spot@);
                    assert(self@.holds_at(slot@, place@, *id));
                    lemma_replaced(
                        self@,
                        spot@,
                        Tile { unmap_snapshot: Some(snapshot), ..tile },
                    );
                }
                self.tile_at_mut(&spot).unmap_snapshot = Some(snapshot);
                assert(self@ == old(self)@.with_snapshot_stored(slot@, place@, snapshot));
                true
            },
            None => false,
        }
    }

    /// Takes the snapshot of a window and decides whether, and between which ends, its transition
    /// runs. The snapshot is given up in any case.
    pub fn begin_minimize_animation(
        &mut self,
        screen: &Vec<OnScreen<H>>,
        id: &WindowId,
        restoring: bool,
        live: &Vec<OwnerId>,
    ) -> (res: Option<PreparedAnimation<H>>)
        requires
            old(self)@.wf(),
        ensures
            final(self)@.wf(),
            if old(self)@.holds(*id) {
                exists|slot: Slot<int>, place: Place<int>|
                    {
                        &&& #[trigger] old(self)@.holds_at(slot, place, *id)
                        &&& final(self)@ == old(self)@.with_snapshot_taken(slot, place)
                        &&& res is Some == old(self)@.can_animate(
                            screen@,
                            *id,
                            old(self)@.workspace(slot).tile(place).unmap_snapshot,
                        )
                        &&& res matches Some(prepared) ==> old(self)@.prepares(
                            screen@,
                            *id,
                            restoring,
                            live@,
                            prepared,
                        ) && old(self)@.workspace(slot).tile(place).unmap_snapshot == Some(
                            prepared.snapshot,
                        )
                    }
            } else {
                res is None && final(self)@ == old(self)@
            },
            res is Some ==> forall|k: int|
                #![trigger old(self)@.minimize_targets[k]]
                {
                    &&& 0 <= k < old(self)@.minimize_targets.len()
                    &&& live@.contains(old(self)@.minimize_targets[k].owner)
                    &&& old(self)@.minimize_targets[k].target.id == *id
                    &&& old(self)@.minimize_targets[k].target.output == res.unwrap().output
                    &&& forall|j: int|
                        k < j < old(self)@.minimize_targets.len() ==> !(live@.contains(
                            (#[trigger] old(self)@.minimize_targets[j]).owner,
                        ) && old(self)@.minimize_targets[j].target.id == *id && old(
                            self,
                        )@.minimize_targets[j].target.output == res.unwrap().output)
                } ==> res.unwrap().target == Some(old(self)@.minimize_targets[k].target),
            res is Some && (forall|k: int|
                0 <= k < old(self)@.minimize_targets.len() ==> !(live@.contains(
                    (#[trigger] old(self)@.minimize_targets[k]).owner,
                ) && old(self)@.minimize_targets[k].target.id == *id && old(
                    self,
                )@.minimize_targets[k].target.output == res.unwrap().output))
                ==> res.unwrap().target is None,
    {
        let res = self.begin_transition(screen, id, restoring, live);
        proof {
            if res is Some {
                lemma_prepared_target(old(self)@, screen@, *id, restoring, live@, res.unwrap());
            }
        }
        res
    }

    fn begin_transition(
        &mut self,
        screen: &Vec<OnScreen<H>>,
        id: &WindowId,
        restoring: bool,
        live: &Vec<OwnerId>,
    ) -> (res: Option<PreparedAnimation<H>>)
        requires
            old(self)@.wf(),
        ensures
            final(self)@.wf(),
            if old(self)@.holds(*id) {
                exists|slot: Slot<int>, place: Place<int>|
                    {
                        &&& #[trigger] old(self)@.holds_at(slot, place, *id)
                        &&& final(self)@ == old(self)@.with_snapshot_taken(slot, place)
                        &&& res is Some == old(self)@.can_animate(
                            screen@,
                            *id,
                            old(self)@.workspace(slot).tile(place).unmap_snapshot,
                        )
                        &&& res matches Some(prepared) ==> old(self)@.prepares(
                            screen@,
                            *id,
                            restoring,
                            live@,
                            prepared,
                        ) && old(self)@.workspace(slot).tile(place).unmap_snapshot == Some(
                            prepared.snapshot,
                        )
                    }
            } else {
                res is None && final(self)@ == old(self)@
            },
    {
        let (slot, place) = match self.find_slot(id) {
            Some(found) => found,
            None => {
                return None;
            },
        };
        let spot = Spot::Held { slot, place };
        let ends = self.transition_ends(screen, id, live);
        let ghost tile = self@.tile(spot@);
        proof {
            assert(self@.holds_at(slot@, place@, *id));
            lemma_replaced(self@, spot@, Tile { unmap_snapshot: None, ..tile });
        }
        let taken = self.tile_at_mut(&spot).take_unmap_snapshot();
        assert(self@ == old(self)@.with_snapshot_taken(slot@, place@));
        let snapshot = match taken {
            Some(snapshot) => snapshot,
            None => {
                return None;
            },
        };
        let TransitionEnds { output, output_state, window_rect, target } = match ends {
            Some(ends) => ends,
            None => {
                return None;
            },
        };
        let anim = Animation {
            start: self.clock.now,
            duration: self.options.window_minimize_duration,
        };
        if anim.is_done(&self.clock) || snapshot.is_empty {
            return None;
        }
        Some(
            PreparedAnimation {
                id: *id,
                output,
                output_state,
                restoring,
                window_rect,
                snapshot,
                anim,
                target,
                effect: self.options.window_minimize_effect,
            },
        )
    }

    /// Prepares the transition of a window that is about to leave, or that has just come back. The
    /// compositor locates the hinted layer surface, confines a target to the output and draws the
    /// pictures.
    pub fn prepare_minimize_animation<
        L: FnOnce(&AnimationTarget<H>) -> Option<H::Rect>,
        V: FnOnce(OutputId, H::Rect, DockEdge) -> Option<H::Rect>,
        C: FnOnce(OutputId) -> H::Rect,
        B: FnMut(H::Contents) -> Option<H::Image>,
    >(
        &mut self,
        screen: &Vec<OnScreen<H>>,
        id: &WindowId,
        restoring: bool,
        live: &Vec<OwnerId>,
        genie_available: bool,
        on_layer: L,
        on_output: V,
        bottom_center: C,
        bake: B,
    ) -> (res: Option<MinimizeAnimation<H>>)
        requires
            old(self)@.wf(),
            forall|target: AnimationTarget<H>| #[trigger] call_requires(on_layer, (&target,)),
            forall|output: OutputId, rect: H::Rect, edge: DockEdge| #[trigger]
                call_requires(on_output, (output, rect, edge)),
            forall|output: OutputId| #[trigger] call_requires(bottom_center, (output,)),
            forall|contents: H::Contents| #[trigger] call_requires(bake, (contents,)),
        ensures
            final(self)@.wf(),
            if old(self)@.holds(*id) {
                exists|slot: Slot<int>, place: Place<int>|
                    {
                        &&& #[trigger] old(self)@.holds_at(slot, place, *id)
                        &&& final(self)@ == old(self)@.with_snapshot_taken(slot, place)
                        &&& if old(self)@.can_animate(
                            screen@,
                            *id,
                            old(self)@.workspace(slot).tile(place).unmap_snapshot,
                        ) {
                            exists|prepared: PreparedAnimation<H>|
                                {
                                    &&& #[trigger] old(self)@.prepares(
                                        screen@,
                                        *id,
                                        restoring,
                                        live@,
                                        prepared,
                                    )
                                    &&& old(self)@.workspace(slot).tile(place).unmap_snapshot
                                        == Some(prepared.snapshot)
                                    &&& match res {
                                        Some(animation) => prepared.ends_at(
                                            on_layer,
                                            on_output,
                                            bottom_center,
                                            (animation.dock_rect, animation.edge),
                                        ) && prepared.baked_as(
                                            (animation.dock_rect, animation.edge),
                                            genie_available,
                                            bake,
                                            animation,
                                        ),
                                        None => prepared.bake_failed(bake),
                                    }
                                }
                        } else {
                            res is None
                        }
                    }
            } else {
                res is None && final(self)@ == old(self)@
            },
            res is Some ==> forall|k: int|
                #![trigger old(self)@.minimize_targets[k]]
                {
                    &&& 0 <= k < old(self)@.minimize_targets.len()
                    &&& live@.contains(old(self)@.minimize_targets[k].owner)
                    &&& old(self)@.minimize_targets[k].target.id == *id
                    &&& old(self)@.minimize_targets[k].target.output == res.unwrap().output
                    &&& forall|j: int|
                        k < j < old(self)@.minimize_targets.len() ==> !(live@.contains(
                            (#[trigger] old(self)@.minimize_targets[j]).owner,
                        ) && old(self)@.minimize_targets[j].target.id == *id && old(
                            self,
                        )@.minimize_targets[j].target.output == res.unwrap().output)
                } ==> {
                    let target = old(self)@.minimize_targets[k].target;
                    let dock = (res.unwrap().dock_rect, res.unwrap().edge);
                    ||| exists|rect: H::Rect|
                        {
                            &&& if target.layer is Some {
                                call_ensures(on_layer, (&target,), Some(rect))
                            } else {
                                rect == target.rect
                            }
                            &&& #[trigger] call_ensures(
                                on_output,
                                (res.unwrap().output, rect, target.edge),
                                Some(dock.0),
                            )
                            &&& dock.1 == target.edge
                        }
                    ||| {
                        &&& dock.1 == DockEdge::Bottom
                        &&& call_ensures(bottom_center, (res.unwrap().output,), dock.0)
                        &&& {
                            ||| target.layer is Some && call_ensures(on_layer, (&target,), None)
                            ||| exists|rect: H::Rect|
                                {
                                    &&& if target.layer is Some {
                                        call_ensures(on_layer, (&target,), Some(rect))
                                    } else {
                                        rect == target.rect
                                    }
                                    &&& #[trigger] call_ensures(
                                        on_output,
                                        (res.unwrap().output, rect, target.edge),
                                        None,
                                    )
                                }
                        }
                    }
                },
            res is Some && (forall|k: int|
                0 <= k < old(self)@.minimize_targets.len() ==> !(live@.contains(
                    (#[trigger] old(self)@.minimize_targets[k]).owner,
                ) && old(self)@.minimize_targets[k].target.id == *id && old(
                    self,
                )@.minimize_targets[k].target.output == res.unwrap().output)) ==> {
                &&& call_ensures(bottom_center, (res.unwrap().output,), res.unwrap().dock_rect)
                &&& res.unwrap().edge == DockEdge::Bottom
            },
            res is Some ==> res.unwrap().restoring == restoring && res.unwrap().id == *id,
    {
        match self.begin_minimize_animation(screen, id, restoring, live) {
            Some(prepared) => {
                let dock = prepared.dock_end(on_layer, on_output, bottom_center);
                let res = MinimizeAnimation::new(prepared, dock, genie_available, bake);
                assert(old(self)@.prepares(screen@, *id, restoring, live@, prepared));
                proof {
                    law_dock_end(prepared, on_layer, on_output, bottom_center, dock);
                }
                res
            },
            None => None,
        }
    }

    /// Where the window is on screen, and what is known of the Dock end there.
    fn transition_ends(
        &self,
        screen: &Vec<OnScreen<H>>,
        id: &WindowId,
        live: &Vec<OwnerId>,
    ) -> (res: Option<TransitionEnds<H>>)
        requires
            self@.wf(),
        ensures
            res is Some == self@.geometry(screen@, *id) is Some,
            res matches Some(ends) ==> self@.connects(screen@, *id, live@, ends),
    {
        let (output, window_rect) = match self.locate(screen, id) {
            Some(geometry) => geometry,
            None => {
                return None;
            },
        };
        proof {
            lemma_geometry_shows(self@, screen@, *id);
        }
        let output_state = match self.find_monitor(&output) {
            Some(monitor) => {
                assert(self@.shows(monitor as int, output));
                self.monitors[monitor].output.state
            },
            None => {
                return None;
            },
        };
        let target = self.latest_target(live, id, &output);
        Some(TransitionEnds { output, output_state, window_rect, target })
    }
}

/// The target of a prepared transition is that of the last hint that counts, whatever its
/// direction.
proof fn lemma_prepared_target<H: Host>(
    l: LayoutView<H>,
    screen: Seq<OnScreen<H>>,
    id: WindowId,
    restoring: bool,
    live: Seq<OwnerId>,
    prepared: PreparedAnimation<H>,
)
    requires
        l.prepares(screen, id, restoring, live, prepared),
    ensures
        forall|k: int|
            #![trigger l.minimize_targets[k]]
            {
                &&& 0 <= k < l.minimize_targets.len()
                &&& live.contains(l.minimize_targets[k].owner)
                &&& l.minimize_targets[k].target.id == id
                &&& l.minimize_targets[k].target.output == prepared.output
                &&& forall|j: int|
                    k < j < l.minimize_targets.len() ==> !(live.contains(
                        (#[trigger] l.minimize_targets[j]).owner,
                    ) && l.minimize_targets[j].target.id == id
                        && l.minimize_targets[j].target.output == prepared.output)
            } ==> prepared.target == Some(l.minimize_targets[k].target),
        (forall|k: int|
            0 <= k < l.minimize_targets.len() ==> !(live.contains(
                (#[trigger] l.minimize_targets[k]).owner,
            ) && l.minimize_targets[k].target.id == id && l.minimize_targets[k].target.output
                == prepared.output)) ==> prepared.target is None,
{
    let output = prepared.output;
    if prepared.target is Some {
        let index = choose|index: int| #[trigger]
            l.latest_hint(index, live, id, output) && l.minimize_targets[index].target
                == prepared.target.unwrap();
        assert(live.contains(l.minimize_targets[index].owner));
        assert forall|k: int|
            #![trigger l.minimize_targets[k]]
            {
                &&& 0 <= k < l.minimize_targets.len()
                &&& live.contains(l.minimize_targets[k].owner)
                &&& l.minimize_targets[k].target.id == id
                &&& l.minimize_targets[k].target.output == prepared.output
                &&& forall|j: int|
                    k < j < l.minimize_targets.len() ==> !(live.contains(
                        (#[trigger] l.minimize_targets[j]).owner,
                    ) && l.minimize_targets[j].target.id == id
                        && l.minimize_targets[j].target.output == prepared.output)
            } implies prepared.target == Some(l.minimize_targets[k].target) by {
            assert(l.hint_applies(k, live, id, output));
            if index < k {
                assert(!l.hint_applies(k, live, id, output));
            } else if k < index {
                assert(!live.contains(l.minimize_targets[index].owner));
            }
        }
    } else {
        assert forall|k: int| 0 <= k < l.minimize_targets.len() implies !(live.contains(
            (#[trigger] l.minimize_targets[k]).owner,
        ) && l.minimize_targets[k].target.id == id && l.minimize_targets[k].target.output
            == prepared.output) by {
            assert(!l.hint_applies(k, live, id, output));
        }
    }
}

/// A window on screen is on a connected output.
proof fn lemma_geometry_shows<H: Host>(
    l: LayoutView<H>,
    screen: Seq<OnScreen<H>>,
    id: WindowId,
)
    requires
        l.geometry(screen, id) is Some,
    ensures
        exists|monitor: int| l.shows(monitor, l.geometry(screen, id).unwrap().0),
{
    let (slot, place, k) = choose|slot: Slot<int>, place: Place<int>, k: int|
        l.shown_at(screen, slot, place, k, id);
    assert(l.shown_at(screen, slot, place, k, id));
    assert(l.shows(slot->monitor, l.geometry(screen, id).unwrap().0));
}

} // verus!
