//! What holds of the transitions and of the Dock hints.

use vstd::prelude::*;

use crate::advance::OnScreen;
use crate::conceal::{lemma_concealed, lemma_concealed_tile, lemma_hidden_restores};
use crate::layout::{LayoutView, Slot};
use crate::lists::{lemma_filter_all, lemma_filter_contains, lemma_filter_none};
use crate::minimize_animation::MinimizeAnimation;
use crate::retile::{lemma_same_spots, lemma_with_tile, lemma_with_tiles};
use crate::spots::{lemma_spots, Spot};
use crate::targets::{hints_of, AnimationTarget, TargetHint};
use crate::tile::Tile;
use crate::types::{BlockOutFrom, Host, OutputId, OwnerId, RenderTarget, WindowId};
use crate::windows::lemma_one_spot;
use crate::workspace::Place;

verus! {

/// A live tile is hidden only in a workspace, and only while its restore transition runs.
pub proof fn law_hidden_only_while_restoring<H: Host>(l: LayoutView<H>, spot: Spot<int>)
    requires
        l.wf(),
        l.valid(spot),
        l.tile(spot).minimize_animation_hidden,
    ensures
        spot is Held,
        l.is_restoring(l.tile(spot).window.id),
{
    let id = l.tile(spot).window.id;
    if spot is Minimized {
        assert(l.minimized_windows[spot->index].wf());
    }
    lemma_spots(l);
    assert(l.spots().contains(spot));
    let i = choose|i: int| 0 <= i < l.spots().len() && l.spots()[i] == spot;
    assert(l.tiles()[i] == l.tile(spot));
    lemma_hidden_restores(l, i);
}

/// A window has at most one transition.
pub proof fn law_one_transition_per_window<H: Host>(l: LayoutView<H>, i: int, j: int)
    requires
        l.wf(),
        0 <= i < l.minimize_animations.len(),
        0 <= j < l.minimize_animations.len(),
        l.minimize_animations[i].id == l.minimize_animations[j].id,
    ensures
        i == j,
{
    if i < j {
        assert(l.minimize_animations[i].id != l.minimize_animations[j].id);
    } else if j < i {
        assert(l.minimize_animations[j].id != l.minimize_animations[i].id);
    }
}

/// Where a transition that goes on comes from: it was there before and did not end, and nothing
/// but the place of the live window may have changed. Its Dock end is fixed.
pub proof fn law_dock_end_is_fixed<H: Host>(l: LayoutView<H>, screen: Seq<OnScreen<H>>, i: int)
    requires
        l.wf(),
        0 <= i < l.with_advanced(screen).minimize_animations.len(),
    ensures
        exists|j: int|
            {
                &&& 0 <= j < l.minimize_animations.len()
                &&& !(l.fate(screen, #[trigger] l.minimize_animations[j]) is Ends)
                &&& l.with_advanced(screen).minimize_animations[i] == (MinimizeAnimation {
                    window_rect: l.with_advanced(screen).minimize_animations[i].window_rect,
                    ..l.minimize_animations[j]
                })
                &&& !l.minimize_animations[j].restoring
                    ==> l.with_advanced(screen).minimize_animations[i] == l.minimize_animations[j]
            },
{
    lemma_advanced_from(l, screen, i);
}

proof fn lemma_advanced_from<H: Host>(
    l: LayoutView<H>,
    screen: Seq<OnScreen<H>>,
    i: int,
) -> (j: int)
    requires
        l.wf(),
        0 <= i < l.with_advanced(screen).minimize_animations.len(),
    ensures
        0 <= j < l.minimize_animations.len(),
        !(l.fate(screen, l.minimize_animations[j]) is Ends),
        l.with_advanced(screen).minimize_animations[i] == l.followed(screen, l.minimize_animations[j]),
        l.minimize_animations.len() > 0,
{
    if l.minimize_animations.len() == 0 {
        assert(false);
    }
    let lives = |animation: MinimizeAnimation<H>| !(l.fate(screen, animation) is Ends);
    let next = LayoutView { minimize_animations: l.surviving(screen), ..l };
    let hidden = |tile: Tile<H>| next.is_restoring(tile.window.id);
    lemma_concealed(next, hidden);
    lemma_filter_contains(l.minimize_animations, lives);
    let kept = l.minimize_animations.filter(lives);
    assert(l.with_advanced(screen).minimize_animations == l.surviving(screen));
    assert(lives(kept[i]) && l.minimize_animations.contains(kept[i]));
    let j = choose|j: int|
        0 <= j < l.minimize_animations.len() && l.minimize_animations[j] == kept[i];
    j
}

/// A transition that has run its time is released, and so is one whose window was closed, whose
/// output is gone or was reconfigured, or that the overview interrupts.
pub proof fn law_transitions_are_released<H: Host>(
    l: LayoutView<H>,
    screen: Seq<OnScreen<H>>,
    k: int,
    i: int,
)
    requires
        l.wf(),
        0 <= k < l.minimize_animations.len(),
        l.minimize_animations[k].anim.done(l.clock) || !l.manages(l.minimize_animations[k].id)
            || !l.output_kept(l.minimize_animations[k]) || l.overview_open,
        0 <= i < l.with_advanced(screen).minimize_animations.len(),
    ensures
        l.with_advanced(screen).minimize_animations[i].id != l.minimize_animations[k].id,
{
    let j = lemma_advanced_from(l, screen, i);
    if l.minimize_animations[j].id == l.minimize_animations[k].id {
        law_one_transition_per_window(l, j, k);
    }
}

/// A restore transition goes on only while its window is on screen, on the same output.
pub proof fn law_restore_transition_follows_its_window<H: Host>(
    l: LayoutView<H>,
    screen: Seq<OnScreen<H>>,
    i: int,
)
    requires
        l.wf(),
        0 <= i < l.with_advanced(screen).minimize_animations.len(),
        l.with_advanced(screen).minimize_animations[i].restoring,
    ensures
        l.geometry(screen, l.with_advanced(screen).minimize_animations[i].id) == Some(
            (
                l.with_advanced(screen).minimize_animations[i].output,
                l.with_advanced(screen).minimize_animations[i].window_rect,
            ),
        ),
{
    lemma_advanced_from(l, screen, i);
}

/// When transitions advance, exactly the tiles whose restore transition goes on stay hidden;
/// completion reveals the live tile.
pub proof fn law_advancing_reveals<H: Host>(
    l: LayoutView<H>,
    screen: Seq<OnScreen<H>>,
    spot: Spot<int>,
)
    requires
        l.wf(),
        l.minimize_animations.len() > 0,
        l.with_advanced(screen).valid(spot),
    ensures
        l.with_advanced(screen).tile(spot).minimize_animation_hidden == l.with_advanced(screen).is_restoring(
            l.with_advanced(screen).tile(spot).window.id,
        ),
{
    let next = LayoutView { minimize_animations: l.surviving(screen), ..l };
    let hidden = |tile: Tile<H>| next.is_restoring(tile.window.id);
    lemma_concealed_tile(next, hidden, spot);
    lemma_concealed(next, hidden);
    let after = l.with_advanced(screen);
    let id = after.tile(spot).window.id;
    assert(after.minimize_animations == next.minimize_animations);
    assert(after.is_restoring(id) == next.is_restoring(id)) by {
        if next.is_restoring(id) {
            let k = choose|k: int|
                0 <= k < next.minimize_animations.len() && (
                #[trigger] next.minimize_animations[k]).id == id
                    && next.minimize_animations[k].restoring;
            assert(after.minimize_animations[k].id == id);
        }
        if after.is_restoring(id) {
            let k = choose|k: int|
                0 <= k < after.minimize_animations.len() && (
                #[trigger] after.minimize_animations[k]).id == id
                    && after.minimize_animations[k].restoring;
            assert(next.minimize_animations[k].id == id);
        }
    }
}

/// A new transition replaces the earlier one of its window and leaves those of other windows
/// alone. The tile of its window in a workspace is hidden exactly if the window is being restored.
/// Every other tile stays as it is, that of a minimized window and that under the pointer too.
pub proof fn law_start_replaces<H: Host>(
    l: LayoutView<H>,
    animation: MinimizeAnimation<H>,
    spot: Spot<int>,
)
    requires
        l.wf(),
        l.valid(spot),
    ensures
        l.with_started(animation).minimize_animations == l.minimize_animations.filter(
            |a: MinimizeAnimation<H>| a.id != animation.id,
        ).push(animation),
        l.with_started(animation).spots() == l.spots(),
        l.with_started(animation).valid(spot),
        l.with_started(animation).tile(spot) == if spot is Held && l.tile(spot).window.id
            == animation.id {
            Tile { minimize_animation_hidden: animation.restoring, ..l.tile(spot) }
        } else {
            l.tile(spot)
        },
{
    let id = animation.id;
    let hidden = |tile: Tile<H>| l.hidden_at_start(animation, tile);
    let after = l.with_started(animation);
    lemma_concealed_tile(l, hidden, spot);
    let concealed = l.with_concealment(hidden);
    lemma_spots(l);
    assert(l.spots().map_values(|s: Spot<int>| l.tile(s)).len() == l.spots().len());
    lemma_with_tiles(l, l.concealed_tiles(hidden), l.spots().len() as int);
    lemma_same_spots(concealed, after);
    assert(after.tile(spot) == concealed.tile(spot));
    match spot {
        Spot::Held { slot, place } => {
            if l.tile(spot).window.id == id {
                assert(l.holds_at(slot, place, id));
            }
        },
        _ => {
            if spot is Minimized {
                assert(l.minimized_windows[spot->index].wf());
            }
            if l.tile(spot).window.id == id && l.holds(id) {
                lemma_one_spot(l, spot, id);
            }
        },
    }
}

/// Cancelling the transition of a window shows its tile, and leaves other windows alone.
pub proof fn law_cancelling_shows<H: Host>(l: LayoutView<H>, id: WindowId, spot: Spot<int>)
    requires
        l.wf(),
        l.with_cancelled(id).valid(spot),
    ensures
        !l.with_cancelled(id).is_restoring(id),
        l.with_cancelled(id).tile(spot) == if l.tile(spot).window.id == id {
            Tile { minimize_animation_hidden: false, ..l.tile(spot) }
        } else {
            l.tile(spot)
        },
{
    let shown = |tile: Tile<H>| tile.minimize_animation_hidden && tile.window.id != id;
    let others = |a: MinimizeAnimation<H>| a.id != id;
    let concealed = l.with_concealment(shown);
    let after = l.with_cancelled(id);
    assert(concealed.valid(spot) && concealed.tile(spot) == after.tile(spot));
    lemma_concealed_tile(l, shown, spot);
    lemma_filter_contains(l.minimize_animations, others);
}

/// Of a removed output no hint and no transition remains.
pub proof fn law_removed_output_is_forgotten<H: Host>(l: LayoutView<H>, output: OutputId, i: int)
    requires
        l.wf(),
    ensures
        0 <= i < l.with_output_cancelled(output).minimize_animations.len()
            ==> l.with_output_cancelled(output).minimize_animations[i].output != output,
        0 <= i < l.with_output_cancelled(output).minimize_targets.len()
            ==> l.with_output_cancelled(output).minimize_targets[i].target.output != output,
{
    lemma_filter_contains(
        l.minimize_animations,
        |animation: MinimizeAnimation<H>| animation.output != output,
    );
    lemma_filter_contains(
        l.minimize_targets,
        |hint: TargetHint<H>| hint.target.output != output,
    );
}

/// The most recently published hint wins: right after a publisher set its targets, a matching one
/// among them is the one that counts, whatever other publishers said before.
pub proof fn law_latest_publisher_wins<H: Host>(
    l: LayoutView<H>,
    owner: OwnerId,
    targets: Seq<AnimationTarget<H>>,
    k: int,
    live: Seq<OwnerId>,
    index: int,
)
    requires
        0 <= k < targets.len(),
        live.contains(owner),
        l.with_published(owner, targets).latest_hint(
            index,
            live,
            targets[k].id,
            targets[k].output,
        ),
    ensures
        index >= l.hints_without_owner(owner).len() + k,
        l.with_published(owner, targets).minimize_targets[index].owner == owner,
{
    let after = l.with_published(owner, targets);
    let own = l.hints_without_owner(owner).len() + k;
    assert(after.hint_applies(own, live, targets[k].id, targets[k].output));
    if index < own {
        assert(!after.hint_applies(own, live, targets[k].id, targets[k].output));
    }
}

/// Publishers own independent sets: replacing one set removes all of its old hints and touches no
/// other.
pub proof fn law_publishers_are_independent<H: Host>(
    l: LayoutView<H>,
    owner: OwnerId,
    i: int,
)
    requires
        0 <= i < l.minimize_targets.len(),
    ensures
        l.minimize_targets[i].owner == owner ==> !l.hints_without_owner(owner).contains(
            l.minimize_targets[i],
        ),
        l.minimize_targets[i].owner != owner ==> l.hints_without_owner(owner).contains(
            l.minimize_targets[i],
        ),
{
    let others = |hint: TargetHint<H>| hint.owner != owner;
    lemma_filter_contains(l.minimize_targets, others);
    let kept = l.hints_without_owner(owner);
    if l.minimize_targets[i].owner == owner && kept.contains(l.minimize_targets[i]) {
        let k = choose|k: int| 0 <= k < kept.len() && kept[k] == l.minimize_targets[i];
        assert(others(kept[k]));
    }
}

/// A hint whose publisher is gone does not count.
pub proof fn law_dead_publishers_do_not_count<H: Host>(
    l: LayoutView<H>,
    index: int,
    live: Seq<OwnerId>,
    id: WindowId,
    output: OutputId,
)
    requires
        l.latest_hint(index, live, id, output),
    ensures
        live.contains(l.minimize_targets[index].owner),
        l.minimize_targets[index].target.id == id,
        l.minimize_targets[index].target.output == output,
{
}

/// Capture privacy: what is withheld from a recipient is never part of the picture it gets, and
/// only the physical output gets the background where there is a picture without it.
pub proof fn law_capture_privacy<H: Host>(animation: MinimizeAnimation<H>, target: RenderTarget)
    ensures
        target.blocked(animation.block_out_from) ==> animation.seen_by(target)
            == animation.blocked,
        target != RenderTarget::Output && !target.blocked(animation.block_out_from)
            && animation.blocked_background is Some ==> animation.seen_by(target)
            == animation.blocked_background.unwrap(),
        target == RenderTarget::Output ==> animation.seen_by(target) == animation.normal,
        animation.block_out_from == Some(BlockOutFrom::ScreenCapture) && target
            != RenderTarget::Output ==> animation.seen_by(target) == animation.blocked,
{
}

/// Restoring runs the way of minimizing backwards.
pub proof fn law_restoring_runs_backwards<H: Host>(animation: MinimizeAnimation<H>)
    ensures
        (MinimizeAnimation { restoring: !animation.restoring, ..animation }).ends() == (
            animation.ends().1,
            animation.ends().0,
        ),
{
}

/// Transitions own no window: starting, cancelling and advancing them leaves every live object
/// where it is.
pub proof fn law_transitions_own_no_window<H: Host>(
    l: LayoutView<H>,
    screen: Seq<OnScreen<H>>,
    animation: MinimizeAnimation<H>,
    id: WindowId,
    spot: Spot<int>,
)
    requires
        l.wf(),
        l.valid(spot),
    ensures
        l.with_started(animation).valid(spot),
        l.with_started(animation).tile(spot).window == l.tile(spot).window,
        l.with_cancelled(id).valid(spot),
        l.with_cancelled(id).tile(spot).window == l.tile(spot).window,
        l.with_all_cancelled().valid(spot),
        l.with_all_cancelled().tile(spot).window == l.tile(spot).window,
        l.with_advanced(screen).valid(spot),
        l.with_advanced(screen).tile(spot).window == l.tile(spot).window,
{
    lemma_cancelled_window(l, id, spot);
    law_start_replaces(l, animation, spot);
    let nothing = |tile: Tile<H>| false;
    lemma_concealed_tile(l, nothing, spot);
    assert(l.with_all_cancelled().tile(spot) == l.with_concealment(nothing).tile(spot));
    if l.minimize_animations.len() > 0 {
        let next = LayoutView { minimize_animations: l.surviving(screen), ..l };
        let hidden = |tile: Tile<H>| next.is_restoring(tile.window.id);
        assert(next.valid(spot) && next.tile(spot) == l.tile(spot));
        lemma_concealed_tile(next, hidden, spot);
    }
}

proof fn lemma_cancelled_window<H: Host>(l: LayoutView<H>, id: WindowId, spot: Spot<int>)
    requires
        l.valid(spot),
    ensures
        l.with_cancelled(id).valid(spot),
        l.with_cancelled(id).tile(spot).window == l.tile(spot).window,
{
    let shown = |tile: Tile<H>| tile.minimize_animation_hidden && tile.window.id != id;
    lemma_concealed_tile(l, shown, spot);
    assert(l.with_cancelled(id).tile(spot) == l.with_concealment(shown).tile(spot));
}

/// Preparing a transition costs a window nothing but its snapshot.
pub proof fn law_preparation_is_harmless<H: Host>(
    l: LayoutView<H>,
    slot: Slot<int>,
    place: Place<int>,
    spot: Spot<int>,
)
    requires
        l.wf(),
        l.occupied(slot, place),
        l.valid(spot),
    ensures
        l.with_snapshot_taken(slot, place).valid(spot),
        l.with_snapshot_taken(slot, place).tile(spot).window == l.tile(spot).window,
        l.with_snapshot_taken(slot, place).tile(spot).minimize_animation_hidden == l.tile(
            spot,
        ).minimize_animation_hidden,
        l.with_snapshot_taken(slot, place).minimize_animations == l.minimize_animations,
{
    let held = Spot::Held { slot, place };
    lemma_with_tile(l, held, Tile { unmap_snapshot: None, ..l.tile(held) });
}

/// Publishing the same targets again changes nothing.
pub proof fn law_publishing_twice<H: Host>(
    l: LayoutView<H>,
    owner: OwnerId,
    targets: Seq<AnimationTarget<H>>,
)
    ensures
        l.with_published(owner, targets).with_published(owner, targets) == l.with_published(
            owner,
            targets,
        ),
{
    let others = |hint: TargetHint<H>| hint.owner != owner;
    let kept = l.hints_without_owner(owner);
    let hints = hints_of(owner, targets);
    lemma_filter_contains(l.minimize_targets, others);
    lemma_filter_all(kept, others);
    lemma_filter_none(hints, others);
    Seq::filter_distributes_over_add(kept, hints, others);
    assert((kept + hints).filter(others) =~= kept);
}

} // verus!
