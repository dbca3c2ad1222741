//! Hints of Docks: where the transition of a window should lead.

use vstd::prelude::*;

use crate::layout::{Layout, LayoutView};
use crate::lists::{contains, retain};
use crate::types::{DockEdge, Host, LayerId, OutputId, OwnerId, WindowId};

verus! {

/// Where the Dock shows a window.
pub struct AnimationTarget<H: Host> {
    pub id: WindowId,
    pub output: OutputId,
    /// Local to the layer surface where there is one, else to the output.
    pub rect: H::Rect,
    pub edge: DockEdge,
    pub layer: Option<LayerId>,
}

/// A target together with its publisher.
pub struct TargetHint<H: Host> {
    pub owner: OwnerId,
    pub target: AnimationTarget<H>,
}

impl<H: Host> AnimationTarget<H> {
    /// Where the target is on its output, given where it would be on its layer surface. A target
    /// on a surface that is no longer mapped is nowhere.
    pub open spec fn located(self, on_layer: Option<H::Rect>) -> Option<H::Rect> {
        match self.layer {
            Some(_) => on_layer,
            None => Some(self.rect),
        }
    }

    pub fn locate(&self, on_layer: Option<H::Rect>) -> (res: Option<H::Rect>)
        ensures
            res == self.located(on_layer),
    {
        match self.layer {
            Some(_) => on_layer,
            None => Some(self.rect),
        }
    }

    pub fn copied(&self) -> (res: Self)
        ensures
            res == *self,
    {
        AnimationTarget {
            id: self.id,
            output: self.output,
            rect: self.rect,
            edge: self.edge,
            layer: self.layer,
        }
    }
}

/// Hints of one publisher, in the order of its targets.
pub open spec fn hints_of<H: Host>(owner: OwnerId, targets: Seq<AnimationTarget<H>>) -> Seq<
    TargetHint<H>,
> {
    targets.map_values(|target: AnimationTarget<H>| TargetHint { owner, target })
}

impl<H: Host> LayoutView<H> {
    /// The hints that are not for this window.
    pub open spec fn hints_without_window(self, id: WindowId) -> Seq<TargetHint<H>> {
        self.minimize_targets.filter(|hint: TargetHint<H>| hint.target.id != id)
    }

    /// The hints of the other publishers.
    pub open spec fn hints_without_owner(self, owner: OwnerId) -> Seq<TargetHint<H>> {
        self.minimize_targets.filter(|hint: TargetHint<H>| hint.owner != owner)
    }

    /// The hints for the other outputs.
    pub open spec fn hints_without_output(self, output: OutputId) -> Seq<TargetHint<H>> {
        self.minimize_targets.filter(|hint: TargetHint<H>| hint.target.output != output)
    }

    /// The layout after a publisher replaced its hints. They count as published after all others.
    pub open spec fn with_published(
        self,
        owner: OwnerId,
        targets: Seq<AnimationTarget<H>>,
    ) -> Self {
        LayoutView {
            minimize_targets: self.hints_without_owner(owner) + hints_of(owner, targets),
            ..self
        }
    }

    /// The hint counts for this window on this output: its publisher is still there.
    pub open spec fn hint_applies(
        self,
        index: int,
        live: Seq<OwnerId>,
        id: WindowId,
        output: OutputId,
    ) -> bool {
        &&& 0 <= index < self.minimize_targets.len()
        &&& live.contains(self.minimize_targets[index].owner)
        &&& self.minimize_targets[index].target.id == id
        &&& self.minimize_targets[index].target.output == output
    }

    /// The target is that of the most recently published hint that counts, or there is none.
    pub open spec fn hinted(
        self,
        live: Seq<OwnerId>,
        id: WindowId,
        output: OutputId,
        target: Option<AnimationTarget<H>>,
    ) -> bool {
        match target {
            Some(target) => exists|index: int| #[trigger]
                self.latest_hint(index, live, id, output) && self.minimize_targets[index].target
                    == target,
            None => forall|index: int| !self.hint_applies(index, live, id, output),
        }
    }

    /// The most recently published hint that counts is at this index.
    pub open spec fn latest_hint(
        self,
        index: int,
        live: Seq<OwnerId>,
        id: WindowId,
        output: OutputId,
    ) -> bool {
        &&& self.hint_applies(index, live, id, output)
        &&& forall|later: int|
            index < later < self.minimize_targets.len() ==> !self.hint_applies(
                later,
                live,
                id,
                output,
            )
    }
}

impl<H: Host> Layout<H> {
    pub fn forget_window_animation_targets(&mut self, id: &WindowId)
        ensures
            final(self)@ == (LayoutView {
                minimize_targets: old(self)@.hints_without_window(*id),
                ..old(self)@
            }),
    {
        let id: WindowId = *id;
        let keep = |hint: &TargetHint<H>| -> (keep: bool)
            ensures
                keep == (hint.target.id != id),
        { hint.target.id != id };
        retain(&mut self.minimize_targets, keep, Ghost(|hint: TargetHint<H>| hint.target.id != id));
        assert(self@ =~~= (LayoutView {
            minimize_targets: old(self)@.hints_without_window(id),
            ..old(self)@
        }));
    }

    pub fn clear_window_animation_targets(&mut self, owner: &OwnerId)
        ensures
            final(self)@ == (LayoutView {
                minimize_targets: old(self)@.hints_without_owner(*owner),
                ..old(self)@
            }),
    {
        let owner: OwnerId = *owner;
        let keep = |hint: &TargetHint<H>| -> (keep: bool)
            ensures
                keep == (hint.owner != owner),
        { hint.owner != owner };
        retain(&mut self.minimize_targets, keep, Ghost(|hint: TargetHint<H>| hint.owner != owner));
        assert(self@ =~~= (LayoutView {
            minimize_targets: old(self)@.hints_without_owner(owner),
            ..old(self)@
        }));
    }

    /// Drops the hints for an output that is gone.
    pub fn forget_output_targets(&mut self, output: &OutputId)
        ensures
            final(self)@ == (LayoutView {
                minimize_targets: old(self)@.hints_without_output(*output),
                ..old(self)@
            }),
    {
        let output: OutputId = *output;
        let keep = |hint: &TargetHint<H>| -> (keep: bool)
            ensures
                keep == (hint.target.output != output),
        { hint.target.output != output };
        retain(&mut self.minimize_targets, keep, Ghost(|hint: TargetHint<H>| hint.target.output != output));
        assert(self@ =~~= (LayoutView {
            minimize_targets: old(self)@.hints_without_output(output),
            ..old(self)@
        }));
    }

    /// Replaces the hints of one publisher. They count as published after all others.
    pub fn set_window_animation_targets(
        &mut self,
        owner: &OwnerId,
        targets: Vec<AnimationTarget<H>>,
    )
        ensures
            final(self)@ == old(self)@.with_published(*owner, targets@),
    {
        self.clear_window_animation_targets(owner);
        let ghost kept = self.minimize_targets@;
        let mut i: usize = 0;
        while i < targets.len()
            invariant
                i <= targets@.len(),
                self@ == (LayoutView { minimize_targets: self.minimize_targets@, ..old(self)@ }),
                self.minimize_targets@ == kept + hints_of(*owner, targets@).take(i as int),
            decreases targets@.len() - i,
        {
            self.minimize_targets.push(TargetHint { owner: *owner, target: targets[i].copied() });
            i += 1;
            assert(self.minimize_targets@ =~= kept + hints_of(*owner, targets@).take(i as int));
        }
        assert(hints_of(*owner, targets@).take(i as int) =~= hints_of(*owner, targets@));
    }

    /// The most recently published target for a window on an output whose publisher is among the
    /// live ones.
    pub fn latest_target(&self, live: &Vec<OwnerId>, id: &WindowId, output: &OutputId) -> (res:
        Option<AnimationTarget<H>>)
        ensures
            self@.hinted(live@, *id, *output, res),
    {
        let mut i: usize = self.minimize_targets.len();
        while i > 0
            invariant
                i <= self.minimize_targets@.len(),
                forall|later: int|
                    i <= later < self.minimize_targets@.len() ==> !self@.hint_applies(
                        later,
                        live@,
                        *id,
                        *output,
                    ),
            decreases i,
        {
            i -= 1;
            let hint = &self.minimize_targets[i];
            if hint.target.id == *id && hint.target.output == *output && contains(
                live,
                hint.owner,
            ) {
                let target = hint.target.copied();
                assert(self@.latest_hint(i as int, live@, *id, *output)
                    && self@.minimize_targets[i as int].target == target);
                return Some(target);
            }
        }
        None
    }
}

} // verus!
