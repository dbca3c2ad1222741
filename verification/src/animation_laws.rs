//! When transitions run, between which ends, and what is seen of them.

use vstd::prelude::*;

use crate::advance::{lemma_shown_once, Fate, OnScreen};
use crate::conceal::{lemma_concealed, lemma_concealed_tile};
use crate::layout::{LayoutView, Slot};
use crate::minimize_animation::MinimizeAnimation;
use crate::prepare::PreparedAnimation;
use crate::render::EdgePlaces;
use crate::retile::lemma_with_tile;
use crate::spots::Spot;
use crate::targets::{AnimationTarget, TargetHint};
use crate::tile::{Snapshot, Tile};
use crate::types::{
    ActivateWindow, Animation, BlockOutFrom, Clock, DockEdge, Host, MinimizeEffect, OutputId,
    OwnerId, RenderTarget, WindowId,
};
use crate::workspace::Place;

verus! {

/// A window that is drawn, in a column or floating, is on screen where the first visible entry for
/// its workspace says, on the output of its monitor. The overview shows windows elsewhere.
pub proof fn law_visible_windows_are_on_screen<H: Host>(
    l: LayoutView<H>,
    screen: Seq<OnScreen<H>>,
    id: WindowId,
    monitor: int,
    workspace: int,
    place: Place<int>,
    k: int,
)
    requires
        l.wf(),
        !l.overview_open,
        0 <= monitor < l.monitors.len(),
        0 <= workspace < l.monitors[monitor].workspaces.len(),
        l.monitors[monitor].workspaces[workspace].valid(place),
        l.monitors[monitor].workspaces[workspace].tile(place).window.id == id,
        0 <= k < screen.len(),
        screen[k].workspace == l.monitors[monitor].workspaces[workspace].id,
        screen[k].id == id,
        screen[k].visible,
        forall|j: int|
            0 <= j < k ==> !((#[trigger] screen[j]).workspace
                == l.monitors[monitor].workspaces[workspace].id && screen[j].id == id
                && screen[j].visible),
    ensures
        l.geometry(screen, id) == Some((l.monitors[monitor].output.id, screen[k].rect)),
{
    let slot = Slot::OnMonitor { monitor, workspace };
    assert(l.holds_at(slot, place, id));
    assert(l.shown_at(screen, slot, place, k, id));
    lemma_shown_once(l, screen, slot, place, k, id);
}

/// A window that is on screen is in a workspace of a monitor, and a visible entry says where. The
/// overview is closed.
pub proof fn law_windows_on_screen_are_visible<H: Host>(
    l: LayoutView<H>,
    screen: Seq<OnScreen<H>>,
    id: WindowId,
) -> (found: (int, int, Place<int>, int))
    requires
        l.wf(),
        l.geometry(screen, id) is Some,
    ensures
        !l.overview_open,
        ({
            let (monitor, workspace, place, k) = found;
            &&& 0 <= monitor < l.monitors.len()
            &&& 0 <= workspace < l.monitors[monitor].workspaces.len()
            &&& l.monitors[monitor].workspaces[workspace].valid(place)
            &&& l.monitors[monitor].workspaces[workspace].tile(place).window.id == id
            &&& 0 <= k < screen.len()
            &&& screen[k].workspace == l.monitors[monitor].workspaces[workspace].id
            &&& screen[k].id == id
            &&& screen[k].visible
            &&& l.geometry(screen, id) == Some((l.monitors[monitor].output.id, screen[k].rect))
        }),
{
    let (slot, place, k) = choose|slot: Slot<int>, place: Place<int>, k: int|
        l.shown_at(screen, slot, place, k, id);
    assert(l.shown_at(screen, slot, place, k, id));
    (slot->monitor, slot->OnMonitor_workspace, place, k)
}

/// The time of an animation is up when its duration has passed since its start, or when animations
/// are switched off.
pub proof fn law_time_is_up(animation: Animation, clock: Clock)
    ensures
        animation.done(clock) <==> clock.complete_instantly || clock.now - animation.start
            >= animation.duration,
{
}

/// A hint counts for a window on an output if its publisher is still there.
pub open spec fn counts<H: Host>(
    hint: TargetHint<H>,
    live: Seq<OwnerId>,
    id: WindowId,
    output: OutputId,
) -> bool {
    &&& exists|i: int| 0 <= i < live.len() && #[trigger] live[i] == hint.owner
    &&& hint.target.id == id
    &&& hint.target.output == output
}

/// The target for a window on an output is that of the last hint that counts, and there is none
/// where no hint counts.
pub proof fn law_last_hint_counts<H: Host>(
    l: LayoutView<H>,
    live: Seq<OwnerId>,
    id: WindowId,
    output: OutputId,
    target: Option<AnimationTarget<H>>,
)
    requires
        l.hinted(live, id, output, target),
    ensures
        forall|k: int|
            0 <= k < l.minimize_targets.len() && counts(
                #[trigger] l.minimize_targets[k],
                live,
                id,
                output,
            ) && (forall|j: int|
                k < j < l.minimize_targets.len() ==> !counts(
                    #[trigger] l.minimize_targets[j],
                    live,
                    id,
                    output,
                )) ==> target == Some(l.minimize_targets[k].target),
        (forall|k: int|
            0 <= k < l.minimize_targets.len() ==> !counts(
                #[trigger] l.minimize_targets[k],
                live,
                id,
                output,
            )) ==> target is None,
        target matches Some(t) ==> t.id == id && t.output == output,
{
    assert forall|k: int| 0 <= k < l.minimize_targets.len() implies counts(
        #[trigger] l.minimize_targets[k],
        live,
        id,
        output,
    ) == l.hint_applies(k, live, id, output) by {
        let owner = l.minimize_targets[k].owner;
        if live.contains(owner) {
            let i = choose|i: int| 0 <= i < live.len() && live[i] == owner;
            assert(live[i] == owner);
        }
    }
    if target is Some {
        let index = choose|index: int| #[trigger]
            l.latest_hint(index, live, id, output) && l.minimize_targets[index].target
                == target.unwrap();
        assert(counts(l.minimize_targets[index], live, id, output));
        assert forall|k: int|
            0 <= k < l.minimize_targets.len() && counts(
                #[trigger] l.minimize_targets[k],
                live,
                id,
                output,
            ) && (forall|j: int|
                k < j < l.minimize_targets.len() ==> !counts(
                    #[trigger] l.minimize_targets[j],
                    live,
                    id,
                    output,
                )) implies target == Some(l.minimize_targets[k].target) by {
            if k < index {
                assert(!counts(l.minimize_targets[index], live, id, output));
            } else if index < k {
                assert(!l.hint_applies(k, live, id, output));
            }
        }
    } else {
        assert forall|k: int| 0 <= k < l.minimize_targets.len() implies !counts(
            #[trigger] l.minimize_targets[k],
            live,
            id,
            output,
        ) by {
            assert(!l.hint_applies(k, live, id, output));
        }
    }
}

/// A transition is prepared alike in both directions: it starts now, lasts as long and deforms as
/// configured, belongs to the output on which the window is and to its present state, has its
/// window end there, and leads to the target of the last hint that counts on that output.
pub proof fn law_prepared_transition<H: Host>(
    l: LayoutView<H>,
    screen: Seq<OnScreen<H>>,
    id: WindowId,
    restoring: bool,
    live: Seq<OwnerId>,
    prepared: PreparedAnimation<H>,
) -> (monitor: int)
    requires
        l.wf(),
        l.prepares(screen, id, restoring, live, prepared),
    ensures
        prepared.id == id,
        prepared.restoring == restoring,
        prepared.anim.start == l.clock.now,
        prepared.anim.duration == l.options.window_minimize_duration,
        prepared.effect == l.options.window_minimize_effect,
        l.geometry(screen, id) == Some((prepared.output, prepared.window_rect)),
        0 <= monitor < l.monitors.len(),
        l.monitors[monitor].output.id == prepared.output,
        l.monitors[monitor].output.state == prepared.output_state,
        forall|k: int|
            0 <= k < l.minimize_targets.len() && counts(
                #[trigger] l.minimize_targets[k],
                live,
                id,
                prepared.output,
            ) && (forall|j: int|
                k < j < l.minimize_targets.len() ==> !counts(
                    #[trigger] l.minimize_targets[j],
                    live,
                    id,
                    prepared.output,
                )) ==> prepared.target == Some(l.minimize_targets[k].target),
        (forall|k: int|
            0 <= k < l.minimize_targets.len() ==> !counts(
                #[trigger] l.minimize_targets[k],
                live,
                id,
                prepared.output,
            )) ==> prepared.target is None,
{
    law_last_hint_counts(l, live, id, prepared.output, prepared.target);
    choose|monitor: int| #[trigger]
        l.shows(monitor, prepared.output) && l.monitors[monitor].output.state
            == prepared.output_state
}

/// A transition needs a snapshot that is not empty, a window on screen and time to run, and
/// nothing else.
pub proof fn law_what_a_transition_needs<H: Host>(
    l: LayoutView<H>,
    screen: Seq<OnScreen<H>>,
    id: WindowId,
    snapshot: Option<Snapshot<H>>,
)
    ensures
        l.can_animate(screen, id, snapshot) <==> {
            &&& snapshot is Some
            &&& !snapshot.unwrap().is_empty
            &&& l.geometry(screen, id) is Some
            &&& l.options.window_minimize_duration > 0
            &&& !l.clock.complete_instantly
        },
{
}

/// The Dock end of a transition: without a hint, the bottom center. A hinted rectangle is the one
/// on the layer surface, where there is one, or else the published one; it counts if the output
/// accepts it, with the published edge. Where it is nowhere or not accepted, the bottom center
/// stands in.
pub proof fn law_dock_end<
    H: Host,
    L: FnOnce(&AnimationTarget<H>) -> Option<H::Rect>,
    V: FnOnce(OutputId, H::Rect, DockEdge) -> Option<H::Rect>,
    C: FnOnce(OutputId) -> H::Rect,
>(
    prepared: PreparedAnimation<H>,
    on_layer: L,
    on_output: V,
    bottom_center: C,
    dock: (H::Rect, DockEdge),
)
    requires
        prepared.ends_at(on_layer, on_output, bottom_center, dock),
    ensures
        prepared.target is None ==> call_ensures(bottom_center, (prepared.output,), dock.0)
            && dock.1 == DockEdge::Bottom,
        prepared.target matches Some(target) && target.layer is None ==> {
            ||| call_ensures(
                on_output,
                (prepared.output, prepared.target.unwrap().rect, prepared.target.unwrap().edge),
                Some(dock.0),
            ) && dock.1 == prepared.target.unwrap().edge
            ||| call_ensures(
                on_output,
                (prepared.output, prepared.target.unwrap().rect, prepared.target.unwrap().edge),
                None,
            ) && call_ensures(bottom_center, (prepared.output,), dock.0) && dock.1
                == DockEdge::Bottom
        },
        prepared.target matches Some(target) && target.layer is Some ==> {
            ||| exists|rect: H::Rect|
                call_ensures(on_layer, (&prepared.target.unwrap(),), Some(rect))
                    && #[trigger] call_ensures(
                    on_output,
                    (prepared.output, rect, prepared.target.unwrap().edge),
                    Some(dock.0),
                ) && dock.1 == prepared.target.unwrap().edge
            ||| exists|rect: H::Rect|
                call_ensures(on_layer, (&prepared.target.unwrap(),), Some(rect))
                    && #[trigger] call_ensures(
                    on_output,
                    (prepared.output, rect, prepared.target.unwrap().edge),
                    None,
                ) && call_ensures(bottom_center, (prepared.output,), dock.0) && dock.1
                    == DockEdge::Bottom
            ||| call_ensures(on_layer, (&prepared.target.unwrap(),), None) && call_ensures(
                bottom_center,
                (prepared.output,),
                dock.0,
            ) && dock.1 == DockEdge::Bottom
        },
{
}

/// A transition shows three pictures: of the contents, of the contents with everything withheld,
/// and, where there is one, of the contents with the background withheld. Otherwise it is what was
/// prepared; the effect falls back to scaling where the Genie shader is not there.
pub proof fn law_drawn_transition<H: Host, B: FnMut(H::Contents) -> Option<H::Image>>(
    prepared: PreparedAnimation<H>,
    dock: (H::Rect, DockEdge),
    genie_available: bool,
    bake: B,
    animation: MinimizeAnimation<H>,
)
    requires
        prepared.baked_as(dock, genie_available, bake, animation),
    ensures
        call_ensures(bake, (prepared.snapshot.contents,), Some(animation.normal)),
        call_ensures(bake, (prepared.snapshot.blocked_out_contents,), Some(animation.blocked)),
        prepared.snapshot.contents_with_blocked_out_bg is None
            ==> animation.blocked_background is None,
        prepared.snapshot.contents_with_blocked_out_bg is Some ==> call_ensures(
            bake,
            (prepared.snapshot.contents_with_blocked_out_bg.unwrap(),),
            animation.blocked_background,
        ) && animation.blocked_background is Some,
        animation.block_out_from == prepared.snapshot.block_out_from,
        animation.source_size == prepared.snapshot.size,
        animation.id == prepared.id,
        animation.output == prepared.output,
        animation.output_state == prepared.output_state,
        animation.restoring == prepared.restoring,
        animation.window_rect == prepared.window_rect,
        animation.dock_rect == dock.0,
        animation.edge == dock.1,
        animation.anim == prepared.anim,
        genie_available ==> animation.effect == prepared.effect,
        !genie_available ==> animation.effect == MinimizeEffect::Scale,
{
}

/// No transition comes of pictures only if one of them could not be drawn.
pub proof fn law_failed_pictures<H: Host, B: FnMut(H::Contents) -> Option<H::Image>>(
    prepared: PreparedAnimation<H>,
    bake: B,
)
    requires
        prepared.bake_failed(bake),
    ensures
        call_ensures(bake, (prepared.snapshot.contents,), None) || call_ensures(
            bake,
            (prepared.snapshot.blocked_out_contents,),
            None,
        ) || (prepared.snapshot.contents_with_blocked_out_bg is Some && call_ensures(
            bake,
            (prepared.snapshot.contents_with_blocked_out_bg.unwrap(),),
            None,
        )),
{
}

/// Starting and cancelling transitions, and removing those of an output, changes neither the active
/// monitor, the outputs and the workspaces that they show nor the configuration.
pub proof fn law_transitions_change_nothing_else<H: Host>(
    l: LayoutView<H>,
    animation: MinimizeAnimation<H>,
    id: WindowId,
    output: OutputId,
)
    requires
        l.wf(),
    ensures
        l.with_started(animation).minimize_targets == l.minimize_targets,
        untouched(l, l.with_started(animation)),
        untouched(l, l.with_cancelled(id)),
        untouched(l, l.with_all_cancelled()),
        untouched(l, l.with_output_cancelled(output)),
{
    lemma_concealed(l, |tile: Tile<H>| l.hidden_at_start(animation, tile));
    lemma_concealed(l, |tile: Tile<H>| tile.minimize_animation_hidden && tile.window.id != id);
    lemma_concealed(l, |tile: Tile<H>| false);
    lemma_concealed(
        l,
        |tile: Tile<H>|
            tile.minimize_animation_hidden && !l.animates_on(tile.window.id, output),
    );
    let started = l.with_concealment(|tile: Tile<H>| l.hidden_at_start(animation, tile));
    let cancelled = l.with_concealment(
        |tile: Tile<H>| tile.minimize_animation_hidden && tile.window.id != id,
    );
    let all = l.with_concealment(|tile: Tile<H>| false);
    let away = l.with_concealment(
        |tile: Tile<H>|
            tile.minimize_animation_hidden && !l.animates_on(tile.window.id, output),
    );
    lemma_untouched(l, started, l.with_started(animation));
    lemma_untouched(l, cancelled, l.with_cancelled(id));
    lemma_untouched(l, all, l.with_all_cancelled());
    lemma_untouched(l, away, l.with_output_cancelled(output));
}

/// The same active monitor, outputs, shown workspaces and configuration.
pub open spec fn untouched<H: Host>(l: LayoutView<H>, after: LayoutView<H>) -> bool {
    &&& after.active_monitor_idx == l.active_monitor_idx
    &&& after.overview_open == l.overview_open
    &&& after.clock == l.clock
    &&& after.options == l.options
    &&& after.next_workspace_id == l.next_workspace_id
    &&& after.minimized_windows.len() == l.minimized_windows.len()
    &&& after.monitors.len() == l.monitors.len()
    &&& forall|m: int|
        0 <= m < l.monitors.len() ==> (#[trigger] after.monitors[m]).output
            == l.monitors[m].output && after.monitors[m].active_workspace_idx
            == l.monitors[m].active_workspace_idx
}

proof fn lemma_untouched<H: Host>(l: LayoutView<H>, concealed: LayoutView<H>, after: LayoutView<H>)
    requires
        concealed.only_tiles_differ(l),
        after == (LayoutView {
            minimize_animations: after.minimize_animations,
            minimize_targets: after.minimize_targets,
            ..concealed
        }),
    ensures
        untouched(l, after),
{
    assert forall|m: int| 0 <= m < l.monitors.len() implies (#[trigger] after.monitors[m]).output
        == l.monitors[m].output && after.monitors[m].active_workspace_idx
        == l.monitors[m].active_workspace_idx by {
        assert(concealed.monitors[m].output == l.monitors[m].output);
    }
}

/// A transition goes on exactly while its time lasts, its output is connected and unchanged, its
/// window is managed and the overview is closed; a restore transition also needs its window on
/// screen, on the same output. Only a restore transition moves its window end.
pub proof fn law_transitions_go_on<H: Host>(
    l: LayoutView<H>,
    screen: Seq<OnScreen<H>>,
    animation: MinimizeAnimation<H>,
)
    requires
        l.wf(),
    ensures
        !(l.fate(screen, animation) is Ends) <==> {
            &&& !l.clock.complete_instantly
            &&& l.clock.now < animation.anim.start + animation.anim.duration
            &&& exists|m: int|
                0 <= m < l.monitors.len() && (#[trigger] l.monitors[m]).output.id
                    == animation.output && l.monitors[m].output.state == animation.output_state
            &&& l.manages(animation.id)
            &&& !l.overview_open
            &&& animation.restoring ==> l.geometry(screen, animation.id) is Some && l.geometry(
                screen,
                animation.id,
            ).unwrap().0 == animation.output
        },
        !(l.fate(screen, animation) is Ends) && animation.restoring ==> l.followed(
            screen,
            animation,
        ) == (MinimizeAnimation {
            window_rect: l.geometry(screen, animation.id).unwrap().1,
            ..animation
        }),
        !animation.restoring ==> l.followed(screen, animation) == animation,
{
    if l.output_kept(animation) {
        let m = choose|m: int| #[trigger]
            l.shows(m, animation.output) && l.monitors[m].output.state == animation.output_state;
        assert(l.monitors[m].output.id == animation.output);
    }
    if exists|m: int|
        0 <= m < l.monitors.len() && (#[trigger] l.monitors[m]).output.id == animation.output
            && l.monitors[m].output.state == animation.output_state {
        let m = choose|m: int|
            0 <= m < l.monitors.len() && (#[trigger] l.monitors[m]).output.id == animation.output
                && l.monitors[m].output.state == animation.output_state;
        assert(l.shows(m, animation.output));
    }
}

/// Advancing keeps the transitions that go on, in their order, and changes nothing but them and
/// which tiles are hidden.
pub proof fn law_advancing_keeps_what_goes_on<H: Host>(
    l: LayoutView<H>,
    screen: Seq<OnScreen<H>>,
    spot: Spot<int>,
)
    requires
        l.wf(),
        l.valid(spot),
    ensures
        l.minimize_animations.len() > 0 ==> l.with_advanced(screen).minimize_animations
            == l.minimize_animations.filter(
            |a: MinimizeAnimation<H>| !(l.fate(screen, a) is Ends),
        ).map_values(|a: MinimizeAnimation<H>| l.followed(screen, a)),
        l.minimize_animations.len() == 0 ==> l.with_advanced(screen) == l,
        l.with_advanced(screen).valid(spot),
        l.with_advanced(screen).tile(spot) == (Tile {
            minimize_animation_hidden: l.with_advanced(screen).tile(spot).minimize_animation_hidden,
            ..l.tile(spot)
        }),
        l.with_advanced(screen).minimize_targets == l.minimize_targets,
        l.with_advanced(screen).active_monitor_idx == l.active_monitor_idx,
        l.with_advanced(screen).clock == l.clock,
        l.with_advanced(screen).options == l.options,
        l.with_advanced(screen).overview_open == l.overview_open,
{
    if l.minimize_animations.len() > 0 {
        let next = LayoutView { minimize_animations: l.surviving(screen), ..l };
        let hidden = |tile: Tile<H>| next.is_restoring(tile.window.id);
        assert(next.valid(spot) && next.tile(spot) == l.tile(spot));
        lemma_concealed_tile(next, hidden, spot);
        lemma_concealed(next, hidden);
    }
}

/// Cancelling the transition of a window keeps those of the others, in their order, and every
/// hint.
pub proof fn law_cancelling_keeps_the_others<H: Host>(l: LayoutView<H>, id: WindowId)
    requires
        l.wf(),
    ensures
        l.with_cancelled(id).minimize_animations == l.minimize_animations.filter(
            |a: MinimizeAnimation<H>| a.id != id,
        ),
        l.with_cancelled(id).minimize_targets == l.minimize_targets,
        l.with_cancelled(id).active_monitor_idx == l.active_monitor_idx,
        l.with_cancelled(id).minimized_windows.len() == l.minimized_windows.len(),
{
    let shown = |tile: Tile<H>| tile.minimize_animation_hidden && tile.window.id != id;
    lemma_concealed(l, shown);
}

/// Cancelling all transitions leaves none, shows every tile and keeps the hints.
pub proof fn law_cancelling_everything<H: Host>(l: LayoutView<H>, spot: Spot<int>)
    requires
        l.wf(),
        l.valid(spot),
    ensures
        l.with_all_cancelled().minimize_animations.len() == 0,
        l.with_all_cancelled().minimize_targets == l.minimize_targets,
        l.with_all_cancelled().active_monitor_idx == l.active_monitor_idx,
        l.with_all_cancelled().valid(spot),
        l.with_all_cancelled().tile(spot) == (Tile {
            minimize_animation_hidden: false,
            ..l.tile(spot)
        }),
{
    let nothing = |tile: Tile<H>| false;
    lemma_concealed(l, nothing);
    lemma_concealed_tile(l, nothing, spot);
    assert(l.with_all_cancelled().tile(spot) == l.with_concealment(nothing).tile(spot));
}

/// With an output go the transitions on it and the hints for it, and no others. The windows of
/// those transitions are shown, and the other tiles stay as they are.
pub proof fn law_output_takes_its_transitions_along<H: Host>(
    l: LayoutView<H>,
    output: OutputId,
    spot: Spot<int>,
)
    requires
        l.wf(),
        l.valid(spot),
    ensures
        ({
            let after = l.with_output_cancelled(output);
            let id = l.tile(spot).window.id;
            let animated = exists|i: int|
                0 <= i < l.minimize_animations.len() && (
                #[trigger] l.minimize_animations[i]).id == id && l.minimize_animations[i].output
                    == output;
            &&& after.minimize_animations == l.minimize_animations.filter(
                |a: MinimizeAnimation<H>| a.output != output,
            )
            &&& after.minimize_targets == l.minimize_targets.filter(
                |hint: TargetHint<H>| hint.target.output != output,
            )
            &&& after.valid(spot)
            &&& animated ==> after.tile(spot) == (Tile {
                minimize_animation_hidden: false,
                ..l.tile(spot)
            })
            &&& !animated ==> after.tile(spot) == l.tile(spot)
        }),
{
    let hidden = |tile: Tile<H>|
        tile.minimize_animation_hidden && !l.animates_on(tile.window.id, output);
    lemma_concealed(l, hidden);
    lemma_concealed_tile(l, hidden, spot);
    let concealed = l.with_concealment(hidden);
    assert(l.with_output_cancelled(output).tile(spot) == concealed.tile(spot));
    assert(l.with_output_cancelled(output).valid(spot));
}

/// Forgetting hints forgets those of one window, of one publisher or for one output, and keeps the
/// others in their order. A publisher that sets its targets puts them behind those of the others.
pub proof fn law_hints_are_forgotten<H: Host>(
    l: LayoutView<H>,
    id: WindowId,
    owner: OwnerId,
    output: OutputId,
    targets: Seq<AnimationTarget<H>>,
)
    ensures
        l.hints_without_window(id) == l.minimize_targets.filter(
            |hint: TargetHint<H>| hint.target.id != id,
        ),
        l.hints_without_owner(owner) == l.minimize_targets.filter(
            |hint: TargetHint<H>| hint.owner != owner,
        ),
        l.hints_without_output(output) == l.minimize_targets.filter(
            |hint: TargetHint<H>| hint.target.output != output,
        ),
        l.with_published(owner, targets) == (LayoutView {
            minimize_targets: l.with_published(owner, targets).minimize_targets,
            ..l
        }),
        l.with_published(owner, targets).minimize_targets.len() == l.minimize_targets.filter(
            |hint: TargetHint<H>| hint.owner != owner,
        ).len() + targets.len(),
        l.with_published(owner, targets).minimize_targets.take(
            l.minimize_targets.filter(|hint: TargetHint<H>| hint.owner != owner).len() as int,
        ) == l.minimize_targets.filter(|hint: TargetHint<H>| hint.owner != owner),
        forall|i: int|
            #![trigger targets[i]]
            0 <= i < targets.len() ==> l.with_published(
                owner,
                targets,
            ).minimize_targets[l.minimize_targets.filter(
                |hint: TargetHint<H>| hint.owner != owner,
            ).len() + i] == (TargetHint { owner, target: targets[i] }),
{
    let kept = l.minimize_targets.filter(|hint: TargetHint<H>| hint.owner != owner);
    assert(l.with_published(owner, targets).minimize_targets.take(kept.len() as int) =~= kept);
}

/// Who sees which picture. What is withheld from screencasts is blocked out there; what is
/// withheld from captures is blocked out of screencasts and captures. The physical output always
/// shows the contents; the other recipients get the picture without background, where there is
/// one.
pub proof fn law_who_sees_what<H: Host>(animation: MinimizeAnimation<H>, target: RenderTarget)
    ensures
        ({
            let from = animation.block_out_from;
            let blocked = (from == Some(BlockOutFrom::Screencast) && target
                == RenderTarget::Screencast) || (from == Some(BlockOutFrom::ScreenCapture) && (
            target == RenderTarget::Screencast || target == RenderTarget::ScreenCapture));
            &&& target.blocked(from) == blocked
            &&& animation.seen_by(target) == if blocked {
                animation.blocked
            } else if target == RenderTarget::Output {
                animation.normal
            } else if animation.blocked_background is Some {
                animation.blocked_background.unwrap()
            } else {
                animation.normal
            }
        }),
{
}

/// A minimize transition leads from the window to the Dock, a restore transition from the Dock to
/// the window. What is drawn says so.
pub proof fn law_way_of_a_transition<H: Host>(animation: MinimizeAnimation<H>, target: RenderTarget)
    ensures
        !animation.restoring ==> animation.ends() == (animation.window_rect, animation.dock_rect),
        animation.restoring ==> animation.ends() == (animation.dock_rect, animation.window_rect),
        animation.frame(target).from == animation.ends().0,
        animation.frame(target).to == animation.ends().1,
        *animation.frame(target).image == animation.seen_by(target),
        *animation.frame(target).animation == animation,
{
}

/// On an output its transitions are drawn and no others, the most recent first.
pub proof fn law_drawn_on_an_output<H: Host>(l: LayoutView<H>, output: OutputId)
    ensures
        l.drawn_on(output).reverse() == l.minimize_animations.filter(
            |a: MinimizeAnimation<H>| a.output == output,
        ),
{
    let here = l.minimize_animations.filter(|a: MinimizeAnimation<H>| a.output == output);
    assert(here.reverse().reverse() =~= here);
}

/// A target at an edge keeps to that border and stays near its hint along it. The shader counts
/// the edges from the bottom: bottom, left, right, top.
pub proof fn law_edges<N>(places: EdgePlaces<N>)
    ensures
        DockEdge::Left.corner(places) == (places.min, places.near_y),
        DockEdge::Right.corner(places) == (places.max_x, places.near_y),
        DockEdge::Top.corner(places) == (places.near_x, places.min),
        DockEdge::Bottom.corner(places) == (places.near_x, places.max_y),
        DockEdge::Bottom.shader_number() == 0,
        DockEdge::Left.shader_number() == 1,
        DockEdge::Right.shader_number() == 2,
        DockEdge::Top.shader_number() == 3,
{
}

/// What is asked of activation: always, never, or as the workspace decides.
pub proof fn law_activation(smart: bool)
    ensures
        ActivateWindow::Yes.decided(smart),
        !ActivateWindow::No.decided(smart),
        ActivateWindow::Smart.decided(smart) == smart,
{
}

/// A snapshot that is stored or taken changes the tile of its window and no other, and nothing
/// else.
pub proof fn law_snapshots<H: Host>(
    l: LayoutView<H>,
    slot: Slot<int>,
    place: Place<int>,
    snapshot: Snapshot<H>,
    spot: Spot<int>,
)
    requires
        l.occupied(slot, place),
        l.valid(spot),
    ensures
        ({
            let held = Spot::Held { slot, place };
            let stored = l.with_snapshot_stored(slot, place, snapshot);
            let taken = l.with_snapshot_taken(slot, place);
            &&& stored.spots() == l.spots()
            &&& taken.spots() == l.spots()
            &&& stored.tile(held) == (Tile { unmap_snapshot: Some(snapshot), ..l.tile(held) })
            &&& taken.tile(held) == (Tile { unmap_snapshot: None, ..l.tile(held) })
            &&& spot != held ==> stored.tile(spot) == l.tile(spot) && taken.tile(spot) == l.tile(
                spot,
            )
            &&& stored.only_tiles_differ(l)
            &&& taken.only_tiles_differ(l)
        }),
{
    let held = Spot::Held { slot, place };
    lemma_with_tile(l, held, Tile { unmap_snapshot: Some(snapshot), ..l.tile(held) });
    lemma_with_tile(l, held, Tile { unmap_snapshot: None, ..l.tile(held) });
}

/// A target on a layer surface is where the surface is now, any other where it was published.
pub proof fn law_targets_on_layers<H: Host>(
    target: AnimationTarget<H>,
    on_layer: Option<H::Rect>,
)
    ensures
        target.layer is Some ==> target.located(on_layer) == on_layer,
        target.layer is None ==> target.located(on_layer) == Some(target.rect),
{
}

/// What becomes of a transition is one of three things.
pub proof fn law_fates<H: Host>(
    l: LayoutView<H>,
    screen: Seq<OnScreen<H>>,
    animation: MinimizeAnimation<H>,
)
    ensures
        l.fate(screen, animation) is Continues ==> !animation.restoring,
        l.fate(screen, animation) matches Fate::Follows(rect) ==> animation.restoring
            && l.geometry(screen, animation.id) == Some((animation.output, rect)),
{
}

} // verus!
