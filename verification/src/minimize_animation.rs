//! Snapshot transitions between a window and its Dock target. A transition owns no window.

use vstd::prelude::*;

use crate::conceal::{
    lemma_concealed, lemma_concealed_wf, lemma_hidden_restores, Concealment,
};
use crate::layout::{Layout, LayoutView};
use crate::lists::{lemma_filter_contains, lemma_filter_distinct, retain};
use crate::spots::Spot;
use crate::tile::Tile;
use crate::types::{
    Animation, BlockOutFrom, DockEdge, Host, MinimizeEffect, OutputId, OutputState, WindowId,
};
use crate::windows::lemma_one_spot;

verus! {

pub struct MinimizeAnimation<H: Host> {
    pub id: WindowId,
    pub output: OutputId,
    pub restoring: bool,
    pub window_rect: H::Rect,
    /// Fixed for this operation, unaffected by subsequent Dock motion or disconnection.
    pub dock_rect: H::Rect,
    pub effect: MinimizeEffect,
    pub edge: DockEdge,
    pub source_size: H::Extent,
    /// The state of the output when the transition began.
    pub output_state: OutputState,
    pub normal: H::Image,
    pub blocked: H::Image,
    pub blocked_background: Option<H::Image>,
    pub block_out_from: Option<BlockOutFrom>,
    pub anim: Animation,
}

impl<H: Host> LayoutView<H> {
    /// A transition of this window runs on this output.
    pub open spec fn animates_on(self, id: WindowId, output: OutputId) -> bool {
        exists|i: int|
            0 <= i < self.minimize_animations.len() && (
            #[trigger] self.minimize_animations[i]).id == id
                && self.minimize_animations[i].output == output
    }

    /// The layout without a transition of this window; its tile is shown.
    pub open spec fn with_cancelled(self, id: WindowId) -> Self {
        LayoutView {
            minimize_animations: self.minimize_animations.filter(
                |animation: MinimizeAnimation<H>| animation.id != id,
            ),
            ..self.with_concealment(
                |tile: Tile<H>| tile.minimize_animation_hidden && tile.window.id != id,
            )
        }
    }

    /// The layout without any transition; every tile is shown.
    pub open spec fn with_all_cancelled(self) -> Self {
        LayoutView {
            minimize_animations: Seq::empty(),
            ..self.with_concealment(|tile: Tile<H>| false)
        }
    }

    /// The layout without hints for, and without transitions on, an output.
    pub open spec fn with_output_cancelled(self, output: OutputId) -> Self {
        LayoutView {
            minimize_animations: self.minimize_animations.filter(
                |animation: MinimizeAnimation<H>| animation.output != output,
            ),
            minimize_targets: self.hints_without_output(output),
            ..self.with_concealment(
                |tile: Tile<H>|
                    tile.minimize_animation_hidden && !self.animates_on(tile.window.id, output),
            )
        }
    }

    /// Whether a tile is hidden once a transition has started: that of a window which is restored
    /// into a workspace is, that of its window which is minimized is not, and the others stay as
    /// they are.
    pub open spec fn hidden_at_start(self, animation: MinimizeAnimation<H>, tile: Tile<H>) -> bool {
        if tile.window.id == animation.id {
            animation.restoring && self.holds(animation.id)
        } else {
            tile.minimize_animation_hidden
        }
    }

    /// The layout with a new transition, which replaces an earlier one of the same window.
    pub open spec fn with_started(self, animation: MinimizeAnimation<H>) -> Self {
        LayoutView {
            minimize_animations: self.minimize_animations.filter(
                |other: MinimizeAnimation<H>| other.id != animation.id,
            ).push(animation),
            ..self.with_concealment(|tile: Tile<H>| self.hidden_at_start(animation, tile))
        }
    }
}

impl<H: Host> Layout<H> {
    pub fn cancel_window_animation(&mut self, id: &WindowId)
        requires
            old(self)@.wf(),
        ensures
            final(self)@.wf(),
            final(self)@ == old(self)@.with_cancelled(*id),
    {
        let id: WindowId = *id;
        let mut ids: Vec<WindowId> = Vec::new();
        ids.push(id);
        let rule = Concealment::Reveal { ids };
        let ghost hidden = |tile: Tile<H>| tile.minimize_animation_hidden && tile.window.id != id;
        proof {
            assert(ids@[0] == id);
            assert(hidden =~= (|tile: Tile<H>| rule.conceals(tile)));
            lemma_concealed(self@, hidden);
        }
        self.conceal(&rule);
        self.retain_other_animations(id);
        proof {
            assert(self@ =~~= old(self)@.with_cancelled(id));
            lemma_cancelled(old(self)@, id);
        }
    }

    pub fn cancel_minimize_animations(&mut self)
        requires
            old(self)@.wf(),
        ensures
            final(self)@.wf(),
            final(self)@ == old(self)@.with_all_cancelled(),
    {
        let rule = Concealment::Only { ids: Vec::new() };
        let ghost hidden = |tile: Tile<H>| false;
        proof {
            assert(hidden =~= (|tile: Tile<H>| rule.conceals(tile)));
            lemma_concealed(self@, hidden);
        }
        self.conceal(&rule);
        let ghost concealed = self@;
        self.minimize_animations.clear();
        proof {
            assert(self@ == (LayoutView { minimize_animations: Seq::empty(), ..concealed }));
            lemma_all_cancelled(old(self)@);
        }
    }

    pub fn start_minimize_animation(&mut self, animation: MinimizeAnimation<H>)
        requires
            old(self)@.wf(),
        ensures
            final(self)@.wf(),
            final(self)@ == old(self)@.with_started(animation),
    {
        let id: WindowId = animation.id;
        let rule = if animation.restoring && self.find_slot(&id).is_some() {
            Concealment::Hide { id }
        } else {
            let mut shown: Vec<WindowId> = Vec::new();
            shown.push(id);
            assert(shown@[0] == id);
            Concealment::Reveal { ids: shown }
        };
        let ghost hidden = |tile: Tile<H>| old(self)@.hidden_at_start(animation, tile);
        proof {
            assert(hidden =~= (|tile: Tile<H>| rule.conceals(tile)));
            lemma_concealed(self@, hidden);
        }
        self.conceal(&rule);
        self.retain_other_animations(id);
        self.minimize_animations.push(animation);
        proof {
            assert(self@ =~~= old(self)@.with_started(animation));
            lemma_started(old(self)@, animation);
        }
    }

    /// Drops the transition of a window.
    fn retain_other_animations(&mut self, id: WindowId)
        ensures
            final(self)@ == (LayoutView {
                minimize_animations: old(self)@.minimize_animations.filter(
                    |animation: MinimizeAnimation<H>| animation.id != id,
                ),
                ..old(self)@
            }),
    {
        let keep = |animation: &MinimizeAnimation<H>| -> (keep: bool)
            ensures
                keep == (animation.id != id),
        { animation.id != id };
        let ghost others = |animation: MinimizeAnimation<H>| animation.id != id;
        retain(&mut self.minimize_animations, keep, Ghost(others));
    }

    /// An output goes away: its hints and transitions go with it.
    pub fn remove_animation_output(&mut self, output: &OutputId)
        requires
            old(self)@.wf(),
        ensures
            final(self)@.wf(),
            final(self)@ == old(self)@.with_output_cancelled(*output),
    {
        let output: OutputId = *output;
        let mut ids: Vec<WindowId> = Vec::new();
        let mut i: usize = 0;
        while i < self.minimize_animations.len()
            invariant
                i <= self.minimize_animations@.len(),
                forall|id: WindowId| #[trigger]
                    ids@.contains(id) <==> exists|k: int|
                        0 <= k < i && (#[trigger] self.minimize_animations@[k]).id == id
                            && self.minimize_animations@[k].output == output,
            decreases self.minimize_animations@.len() - i,
        {
            if self.minimize_animations[i].output == output {
                let id: WindowId = self.minimize_animations[i].id;
                let ghost before = ids@;
                ids.push(id);
                assert forall|other: WindowId| #[trigger]
                    ids@.contains(other) <==> exists|k: int|
                        0 <= k < i + 1 && (#[trigger] self.minimize_animations@[k]).id == other
                            && self.minimize_animations@[k].output == output by {
                    assert(before.contains(other) ==> ids@.contains(other)) by {
                        if before.contains(other) {
                            let k = choose|k: int| 0 <= k < before.len() && before[k] == other;
                            assert(ids@[k] == other);
                        }
                    }
                    assert(ids@[before.len() as int] == id);
                    if ids@.contains(other) && other != id {
                        let k = choose|k: int| 0 <= k < ids@.len() && ids@[k] == other;
                        assert(before[k] == other);
                        assert(before.contains(other));
                    }
                }
            }
            i += 1;
        }
        let rule = Concealment::Reveal { ids };
        let ghost hidden = |tile: Tile<H>|
            tile.minimize_animation_hidden && !old(self)@.animates_on(tile.window.id, output);
        proof {
            assert(hidden =~= (|tile: Tile<H>| rule.conceals(tile)));
            lemma_concealed(self@, hidden);
        }
        self.conceal(&rule);
        self.forget_output_targets(&output);
        let ghost concealed = self@;
        let keep = |animation: &MinimizeAnimation<H>| -> (keep: bool)
            ensures
                keep == (animation.output != output),
        { animation.output != output };
        let ghost elsewhere = |animation: MinimizeAnimation<H>| animation.output != output;
        retain(&mut self.minimize_animations, keep, Ghost(elsewhere));
        proof {
            assert(self@ == (LayoutView {
                minimize_animations: self.minimize_animations@,
                ..concealed
            }));
            assert(self@ == old(self)@.with_output_cancelled(output));
            lemma_output_cancelled(old(self)@, output);
        }
    }
}

proof fn lemma_cancelled<H: Host>(l: LayoutView<H>, id: WindowId)
    requires
        l.wf(),
    ensures
        l.with_cancelled(id).wf(),
{
    let hidden = |tile: Tile<H>| tile.minimize_animation_hidden && tile.window.id != id;
    let wanted = |animation: MinimizeAnimation<H>| animation.id != id;
    lemma_pruned(l, hidden, wanted, l.with_cancelled(id));
}

proof fn lemma_all_cancelled<H: Host>(l: LayoutView<H>)
    requires
        l.wf(),
    ensures
        l.with_all_cancelled().wf(),
{
    let nothing = |tile: Tile<H>| false;
    lemma_concealed(l, nothing);
    lemma_concealed_wf(l, nothing, l.with_all_cancelled());
}

/// Dropping transitions, and showing at least the tiles of the windows that lose one.
proof fn lemma_pruned<H: Host>(
    l: LayoutView<H>,
    hidden: spec_fn(Tile<H>) -> bool,
    wanted: spec_fn(MinimizeAnimation<H>) -> bool,
    after: LayoutView<H>,
)
    requires
        l.wf(),
        after == (LayoutView {
            minimize_animations: l.minimize_animations.filter(wanted),
            minimize_targets: after.minimize_targets,
            ..l.with_concealment(hidden)
        }),
        forall|tile: Tile<H>| #[trigger] hidden(tile) ==> tile.minimize_animation_hidden,
        forall|tile: Tile<H>, i: int|
            #![trigger hidden(tile), l.minimize_animations[i]]
            hidden(tile) && 0 <= i < l.minimize_animations.len() && l.minimize_animations[i].id
                == tile.window.id ==> wanted(l.minimize_animations[i]),
    ensures
        after.wf(),
{
    lemma_filter_distinct(
        l.minimize_animations,
        wanted,
        |animation: MinimizeAnimation<H>| animation.id,
    );
    lemma_filter_contains(l.minimize_animations, wanted);
    assert forall|i: int| 0 <= i < l.tiles().len() && hidden(#[trigger] l.tiles()[i]) implies
        after.is_restoring(l.tiles()[i].window.id) by {
        let k = lemma_hidden_restores(l, i);
        assert(wanted(l.minimize_animations[k]));
        assert(after.minimize_animations.contains(l.minimize_animations[k]));
    }
    lemma_concealed_wf(l, hidden, after);
}

proof fn lemma_started<H: Host>(l: LayoutView<H>, animation: MinimizeAnimation<H>)
    requires
        l.wf(),
    ensures
        l.with_started(animation).wf(),
{
    let after = l.with_started(animation);
    let hidden = |tile: Tile<H>| l.hidden_at_start(animation, tile);
    let others = |other: MinimizeAnimation<H>| other.id != animation.id;
    let kept = l.minimize_animations.filter(others);
    lemma_filter_contains(l.minimize_animations, others);
    lemma_filter_distinct(l.minimize_animations, others, |a: MinimizeAnimation<H>| a.id);
    assert(after.minimize_animations == kept.push(animation));
    assert forall|i: int| 0 <= i < l.tiles().len() && hidden(#[trigger] l.tiles()[i]) implies
        after.is_restoring(l.tiles()[i].window.id) by {
        if l.tiles()[i].window.id == animation.id {
            assert(after.minimize_animations[kept.len() as int] == animation);
        } else {
            let k = lemma_hidden_restores(l, i);
            assert(others(l.minimize_animations[k]));
            assert(kept.contains(l.minimize_animations[k]));
            let j = choose|j: int| 0 <= j < kept.len() && kept[j] == l.minimize_animations[k];
            assert(after.minimize_animations[j] == kept[j]);
        }
    }
    assert forall|spot: Spot<int>| #[trigger] l.valid(spot) && !(spot is Held) implies !hidden(
        l.tile(spot),
    ) by {
        if spot is Minimized {
            assert(l.minimized_windows[spot->index].wf());
        }
        if l.tile(spot).window.id == animation.id && l.holds(animation.id) {
            lemma_one_spot(l, spot, animation.id);
        }
    }
    lemma_concealed_wf(l, hidden, after);
}

pub proof fn lemma_output_cancelled<H: Host>(l: LayoutView<H>, output: OutputId)
    requires
        l.wf(),
    ensures
        l.with_output_cancelled(output).wf(),
{
    let hidden = |tile: Tile<H>|
        tile.minimize_animation_hidden && !l.animates_on(tile.window.id, output);
    let wanted = |animation: MinimizeAnimation<H>| animation.output != output;
    lemma_pruned(l, hidden, wanted, l.with_output_cancelled(output));
}

} // verus!
