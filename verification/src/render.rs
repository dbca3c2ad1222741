//! What a transition puts on screen.

use vstd::prelude::*;

use crate::layout::{Layout, LayoutView};
use crate::minimize_animation::MinimizeAnimation;
use crate::types::{DockEdge, Host, MinimizeEffect, OutputId, RenderTarget};

verus! {

/// One transition as a recipient gets to see it. The compositor interpolates between the two
/// rectangles.
pub struct Frame<'a, H: Host> {
    pub image: &'a H::Image,
    pub from: H::Rect,
    pub to: H::Rect,
    pub animation: &'a MinimizeAnimation<H>,
}

/// The places that a Dock target at an edge of an output can take: along the edge it stays near
/// its hint, across it keeps to the border.
pub struct EdgePlaces<N> {
    pub near_x: N,
    pub near_y: N,
    pub min: N,
    pub max_x: N,
    pub max_y: N,
}

impl DockEdge {
    /// The top left corner of a target at this edge.
    pub open spec fn corner<N>(self, places: EdgePlaces<N>) -> (N, N) {
        match self {
            DockEdge::Left => (places.min, places.near_y),
            DockEdge::Right => (places.max_x, places.near_y),
            DockEdge::Top => (places.near_x, places.min),
            DockEdge::Bottom => (places.near_x, places.max_y),
        }
    }

    pub fn place<N>(&self, places: EdgePlaces<N>) -> (res: (N, N))
        ensures
            res == self.corner(places),
    {
        match self {
            DockEdge::Left => (places.min, places.near_y),
            DockEdge::Right => (places.max_x, places.near_y),
            DockEdge::Top => (places.near_x, places.min),
            DockEdge::Bottom => (places.near_x, places.max_y),
        }
    }

    /// The number by which the Genie shader knows the edge.
    pub open spec fn shader_number(self) -> u8 {
        match self {
            DockEdge::Bottom => 0,
            DockEdge::Left => 1,
            DockEdge::Right => 2,
            DockEdge::Top => 3,
        }
    }

    pub fn shader_index(&self) -> (res: u8)
        ensures
            res == self.shader_number(),
    {
        match self {
            DockEdge::Bottom => 0,
            DockEdge::Left => 1,
            DockEdge::Right => 2,
            DockEdge::Top => 3,
        }
    }
}

impl<H: Host> MinimizeAnimation<H> {
    /// The picture that a recipient may see.
    pub open spec fn seen_by(self, target: RenderTarget) -> H::Image {
        if target.blocked(self.block_out_from) {
            self.blocked
        } else if target == RenderTarget::Output {
            self.normal
        } else {
            match self.blocked_background {
                Some(image) => image,
                None => self.normal,
            }
        }
    }

    /// Where the snapshot starts and where it leads.
    pub open spec fn ends(self) -> (H::Rect, H::Rect) {
        if self.restoring {
            (self.dock_rect, self.window_rect)
        } else {
            (self.window_rect, self.dock_rect)
        }
    }

    /// What a recipient sees of the transition.
    pub open spec fn frame<'a>(&'a self, target: RenderTarget) -> Frame<'a, H> {
        Frame {
            image: &self.seen_by(target),
            from: self.ends().0,
            to: self.ends().1,
            animation: self,
        }
    }

    /// The two rectangles between which the snapshot moves.
    pub fn endpoints(&self) -> (res: (H::Rect, H::Rect))
        ensures
            res == self.ends(),
    {
        if self.restoring {
            (self.dock_rect, self.window_rect)
        } else {
            (self.window_rect, self.dock_rect)
        }
    }

    /// Which drawing is used: the Genie sheet where that is the effect and the sheet does not fold
    /// over itself, and else (`None`) the scaled picture.
    pub fn drawn<S>(&self, sheet: Option<S>) -> (res: Option<S>)
        ensures
            res == if self.effect == MinimizeEffect::Genie {
                sheet
            } else {
                None
            },
    {
        if self.effect == MinimizeEffect::Genie {
            sheet
        } else {
            None
        }
    }

    pub fn render(&self, target: RenderTarget) -> (res: Frame<'_, H>)
        ensures
            res == self.frame(target),
    {
        let image = if target.should_block_out(self.block_out_from) {
            &self.blocked
        } else if target != RenderTarget::Output {
            match &self.blocked_background {
                Some(image) => image,
                None => &self.normal,
            }
        } else {
            &self.normal
        };
        let (from, to) = self.endpoints();
        Frame { image, from, to, animation: self }
    }
}

impl<H: Host> LayoutView<H> {
    /// The transitions on an output, the most recent first.
    pub open spec fn drawn_on(self, output: OutputId) -> Seq<MinimizeAnimation<H>> {
        self.minimize_animations.filter(
            |animation: MinimizeAnimation<H>| animation.output == output,
        ).reverse()
    }
}

impl<H: Host> Layout<H> {
    /// The transitions on an output as a recipient gets to see them, the most recent first.
    pub fn render_minimize_animations(&self, output: &OutputId, target: RenderTarget) -> (res: Vec<
        Frame<'_, H>,
    >)
        ensures
            res@ == self@.drawn_on(*output).map_values(
                |animation: MinimizeAnimation<H>| animation.frame(target),
            ),
    {
        let output: OutputId = *output;
        let ghost here = |animation: MinimizeAnimation<H>| animation.output == output;
        let ghost drawn = |animation: MinimizeAnimation<H>| animation.frame(target);
        let ghost all = self.minimize_animations@;
        let mut res: Vec<Frame<'_, H>> = Vec::new();
        let mut i: usize = self.minimize_animations.len();
        assert(all.skip(i as int).filter(here).reverse().map_values(drawn) =~= Seq::empty()) by {
            reveal(Seq::filter);
        }
        while i > 0
            invariant
                all == self.minimize_animations@,
                here == (|animation: MinimizeAnimation<H>| animation.output == output),
                drawn == (|animation: MinimizeAnimation<H>| animation.frame(target)),
                i <= all.len(),
                res@ == all.skip(i as int).filter(here).reverse().map_values(drawn),
            decreases i,
        {
            i -= 1;
            let animation = &self.minimize_animations[i];
            proof {
                assert(all.skip(i as int) =~= seq![all[i as int]] + all.skip(i + 1));
                lemma_filter_front(all[i as int], all.skip(i + 1), here);
            }
            if animation.output == output {
                res.push(animation.render(target));
            }
            assert(res@ =~= all.skip(i as int).filter(here).reverse().map_values(drawn));
        }
        assert(all.skip(0) =~= all);
        res
    }
}

proof fn lemma_filter_front<T>(first: T, rest: Seq<T>, wanted: spec_fn(T) -> bool)
    ensures
        (seq![first] + rest).filter(wanted) == if wanted(first) {
            seq![first] + rest.filter(wanted)
        } else {
            rest.filter(wanted)
        },
    decreases rest.len(),
{
    reveal(Seq::filter);
    let all = seq![first] + rest;
    if rest.len() == 0 {
        assert(all.drop_last() =~= Seq::empty());
        assert(all.drop_last().filter(wanted) =~= Seq::empty());
        assert(all.filter(wanted) =~= if wanted(first) {
            seq![first] + rest.filter(wanted)
        } else {
            rest.filter(wanted)
        });
    } else {
        lemma_filter_front(first, rest.drop_last(), wanted);
        assert(all.drop_last() =~= seq![first] + rest.drop_last());
        assert(all.filter(wanted) =~= if wanted(first) {
            seq![first] + rest.filter(wanted)
        } else {
            rest.filter(wanted)
        });
    }
}

} // verus!
