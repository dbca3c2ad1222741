//! Running transitions: following the live window, and ending.

use vstd::prelude::*;

use crate::animation_laws::{law_visible_windows_are_on_screen, law_windows_on_screen_are_visible};
use crate::conceal::{lemma_concealed, lemma_concealed_wf, Concealment};
use crate::layout::{Layout, LayoutView, Slot};
use crate::lists::{lemma_filter_contains, lemma_filter_distinct};
use crate::minimize_animation::MinimizeAnimation;
use crate::ownership::{count, Key};
use crate::placement::{lemma_monitor_for, lemma_slot_unique, lemma_tiles_split};
use crate::spots::Spot;
use crate::tile::Tile;
use crate::types::{Host, OutputId, WindowId, WorkspaceId};
use crate::windows::lemma_one_spot;
use crate::workspace::Place;

verus! {

/// Where the compositor draws a tile. At the time of an operation it lists the tiles of the
/// workspaces that are on screen, in whole or in part.
pub struct OnScreen<H: Host> {
    pub workspace: WorkspaceId,
    pub id: WindowId,
    /// The animated tile, in coordinates of its output.
    pub rect: H::Rect,
    /// The tile takes part in rendering: it is not, for example, a tab in the background.
    pub visible: bool,
}

impl<H: Host> OnScreen<H> {
    /// The visible tile of this window in this workspace.
    pub open spec fn shows(self, workspace: WorkspaceId, id: WindowId) -> bool {
        self.workspace == workspace && self.id == id && self.visible
    }
}

/// What becomes of a transition.
pub enum Fate<R> {
    Ends,
    Continues,
    /// It goes on, with the live tile at another place.
    Follows(R),
}

impl<H: Host> LayoutView<H> {
    /// The tile of the window is on screen: it sits at this place of a monitor's workspace, and
    /// this is the first entry that shows it there.
    pub open spec fn shown_at(
        self,
        screen: Seq<OnScreen<H>>,
        slot: Slot<int>,
        place: Place<int>,
        k: int,
        id: WindowId,
    ) -> bool {
        &&& slot is OnMonitor
        &&& self.holds_at(slot, place, id)
        &&& 0 <= k < screen.len()
        &&& screen[k].shows(self.workspace(slot).id, id)
        &&& forall|j: int|
            0 <= j < k ==> !(#[trigger] screen[j]).shows(self.workspace(slot).id, id)
    }

    /// The output and the rectangle that belong to such an entry.
    pub open spec fn geometry_at(self, screen: Seq<OnScreen<H>>, slot: Slot<int>, k: int) -> (
        OutputId,
        H::Rect,
    ) {
        (self.monitors[slot->monitor].output.id, screen[k].rect)
    }

    /// Where the window is on screen. The overview shows windows elsewhere.
    pub open spec fn geometry(self, screen: Seq<OnScreen<H>>, id: WindowId) -> Option<
        (OutputId, H::Rect),
    > {
        if !self.overview_open && exists|slot: Slot<int>, place: Place<int>, k: int|
            self.shown_at(screen, slot, place, k, id) {
            let (slot, place, k) = choose|slot: Slot<int>, place: Place<int>, k: int|
                self.shown_at(screen, slot, place, k, id);
            Some(self.geometry_at(screen, slot, k))
        } else {
            None
        }
    }

    /// The output is connected and was not reconfigured since the transition began.
    pub open spec fn output_kept(self, animation: MinimizeAnimation<H>) -> bool {
        exists|monitor: int| #[trigger]
            self.shows(monitor, animation.output) && self.monitors[monitor].output.state
                == animation.output_state
    }

    pub open spec fn fate(self, screen: Seq<OnScreen<H>>, animation: MinimizeAnimation<H>) -> Fate<
        H::Rect,
    > {
        if animation.anim.done(self.clock) || !self.output_kept(animation) || !self.manages(
            animation.id,
        ) || self.overview_open {
            Fate::Ends
        } else if !animation.restoring {
            Fate::Continues
        } else {
            match self.geometry(screen, animation.id) {
                Some((output, rect)) if output == animation.output => Fate::Follows(rect),
                _ => Fate::Ends,
            }
        }
    }

    /// The transition in its next step.
    pub open spec fn followed(
        self,
        screen: Seq<OnScreen<H>>,
        animation: MinimizeAnimation<H>,
    ) -> MinimizeAnimation<H> {
        match self.fate(screen, animation) {
            Fate::Follows(rect) => MinimizeAnimation { window_rect: rect, ..animation },
            _ => animation,
        }
    }

    /// The transitions that go on.
    pub open spec fn surviving(self, screen: Seq<OnScreen<H>>) -> Seq<MinimizeAnimation<H>> {
        self.minimize_animations.filter(
            |animation: MinimizeAnimation<H>| !(self.fate(screen, animation) is Ends),
        ).map_values(|animation: MinimizeAnimation<H>| self.followed(screen, animation))
    }

    /// The layout after its transitions advanced. Exactly the tiles whose restore transition goes
    /// on are hidden.
    pub open spec fn with_advanced(self, screen: Seq<OnScreen<H>>) -> Self {
        if self.minimize_animations.len() == 0 {
            self
        } else {
            let next = LayoutView { minimize_animations: self.surviving(screen), ..self };
            next.with_concealment(|tile: Tile<H>| next.is_restoring(tile.window.id))
        }
    }
}

impl<H: Host> Layout<H> {
    /// Where the window is on screen.
    pub fn animation_geometry(&self, screen: &Vec<OnScreen<H>>, id: &WindowId) -> (res: Option<
        (OutputId, H::Rect),
    >)
        requires
            self@.wf(),
        ensures
            res == self@.geometry(screen@, *id),
            self@.overview_open ==> res is None,
            !self@.overview_open ==> forall|m: int, w: int, place: Place<int>, k: int|
                #![trigger self@.monitors[m].workspaces[w].tile(place), screen@[k]]
                {
                    &&& 0 <= m < self@.monitors.len()
                    &&& 0 <= w < self@.monitors[m].workspaces.len()
                    &&& self@.monitors[m].workspaces[w].valid(place)
                    &&& self@.monitors[m].workspaces[w].tile(place).window.id == *id
                    &&& 0 <= k < screen@.len()
                    &&& screen@[k].workspace == self@.monitors[m].workspaces[w].id
                    &&& screen@[k].id == *id
                    &&& screen@[k].visible
                    &&& forall|j: int|
                        0 <= j < k ==> !((#[trigger] screen@[j]).workspace
                            == self@.monitors[m].workspaces[w].id && screen@[j].id == *id
                            && screen@[j].visible)
                } ==> res == Some((self@.monitors[m].output.id, screen@[k].rect)),
            res is Some ==> exists|m: int, w: int, place: Place<int>, k: int|
                #![trigger self@.monitors[m].workspaces[w].tile(place), screen@[k]]
                {
                    &&& 0 <= m < self@.monitors.len()
                    &&& 0 <= w < self@.monitors[m].workspaces.len()
                    &&& self@.monitors[m].workspaces[w].valid(place)
                    &&& self@.monitors[m].workspaces[w].tile(place).window.id == *id
                    &&& 0 <= k < screen@.len()
                    &&& screen@[k].workspace == self@.monitors[m].workspaces[w].id
                    &&& screen@[k].id == *id
                    &&& screen@[k].visible
                },
    {
        let res = self.locate(screen, id);
        proof {
            if !self@.overview_open {
                assert forall|m: int, w: int, place: Place<int>, k: int|
                    #![trigger self@.monitors[m].workspaces[w].tile(place), screen@[k]]
                    {
                        &&& 0 <= m < self@.monitors.len()
                        &&& 0 <= w < self@.monitors[m].workspaces.len()
                        &&& self@.monitors[m].workspaces[w].valid(place)
                        &&& self@.monitors[m].workspaces[w].tile(place).window.id == *id
                        &&& 0 <= k < screen@.len()
                        &&& screen@[k].workspace == self@.monitors[m].workspaces[w].id
                        &&& screen@[k].id == *id
                        &&& screen@[k].visible
                        &&& forall|j: int|
                            0 <= j < k ==> !((#[trigger] screen@[j]).workspace
                                == self@.monitors[m].workspaces[w].id && screen@[j].id == *id
                                && screen@[j].visible)
                    } implies res == Some((self@.monitors[m].output.id, screen@[k].rect)) by {
                    law_visible_windows_are_on_screen(self@, screen@, *id, m, w, place, k);
                }
            }
            if res is Some {
                let (m, w, place, k) = law_windows_on_screen_are_visible(self@, screen@, *id);
                assert(self@.monitors[m].workspaces[w].tile(place).window.id == *id);
                assert(screen@[k].visible);
            }
        }
        res
    }

    pub(crate) fn locate(&self, screen: &Vec<OnScreen<H>>, id: &WindowId) -> (res: Option<
        (OutputId, H::Rect),
    >)
        requires
            self@.wf(),
        ensures
            res == self@.geometry(screen@, *id),
    {
        if self.overview_open {
            return None;
        }
        let (slot, place) = match self.find_slot(id) {
            Some(found) => found,
            None => {
                return None;
            },
        };
        let workspace: WorkspaceId = self.workspace_at(&slot).id;
        let monitor: usize = match slot {
            Slot::OnMonitor { monitor, .. } => monitor,
            Slot::Orphan { .. } => {
                proof {
                    lemma_shown_nowhere(self@, screen@, slot@, place@, *id);
                }
                return None;
            },
        };
        let mut k: usize = 0;
        while k < screen.len()
            invariant
                self@.wf(),
                !self.overview_open,
                self@.holds_at(slot@, place@, *id),
                slot@ is OnMonitor,
                slot@->monitor == monitor,
                workspace == self@.workspace(slot@).id,
                k <= screen@.len(),
                forall|j: int| 0 <= j < k ==> !(#[trigger] screen@[j]).shows(workspace, *id),
            decreases screen@.len() - k,
        {
            let entry = &screen[k];
            if entry.workspace == workspace && entry.id == *id && entry.visible {
                proof {
                    assert(self@.shown_at(screen@, slot@, place@, k as int, *id));
                    lemma_shown_once(self@, screen@, slot@, place@, k as int, *id);
                }
                return Some((self.monitors[monitor].output.id, entry.rect));
            }
            k += 1;
        }
        proof {
            lemma_shown_nowhere(self@, screen@, slot@, place@, *id);
        }
        None
    }

    /// Decides what becomes of a transition.
    fn decide(&self, screen: &Vec<OnScreen<H>>, animation: &MinimizeAnimation<H>) -> (res: Fate<
        H::Rect,
    >)
        requires
            self@.wf(),
        ensures
            res == self@.fate(screen@, *animation),
    {
        let kept = match self.find_monitor(&animation.output) {
            Some(monitor) => {
                proof {
                    if self@.output_kept(*animation) {
                        let other = choose|m: int| #[trigger]
                            self@.shows(m, animation.output) && self@.monitors[m].output.state
                                == animation.output_state;
                        lemma_monitor_for(self@, animation.output, monitor as int);
                        lemma_monitor_for(self@, animation.output, other);
                    }
                }
                self.monitors[monitor].output.state == animation.output_state
            },
            None => false,
        };
        if animation.anim.is_done(&self.clock) || !kept || !self.has_managed_window(&animation.id)
            || self.overview_open {
            return Fate::Ends;
        }
        if !animation.restoring {
            return Fate::Continues;
        }
        match self.locate(screen, &animation.id) {
            Some((output, rect)) => if output == animation.output {
                Fate::Follows(rect)
            } else {
                Fate::Ends
            },
            None => Fate::Ends,
        }
    }

    /// Advances the transitions: drops those that ended, and lets restore transitions follow the
    /// live tile. The Dock end stays fixed.
    pub fn advance_minimize_animations(&mut self, screen: &Vec<OnScreen<H>>)
        requires
            old(self)@.wf(),
        ensures
            final(self)@.wf(),
            final(self)@ == old(self)@.with_advanced(screen@),
    {
        if self.minimize_animations.len() == 0 {
            return;
        }
        let ghost l = self@;
        let ghost before = l.minimize_animations;
        let ghost lives = |animation: MinimizeAnimation<H>| !(l.fate(screen@, animation) is Ends);
        let ghost step = |animation: MinimizeAnimation<H>| l.followed(screen@, animation);
        let mut fates: Vec<Fate<H::Rect>> = Vec::new();
        let mut n: usize = 0;
        while n < self.minimize_animations.len()
            invariant
                self@ == l,
                l.wf(),
                before == l.minimize_animations,
                n <= before.len(),
                fates@.len() == n,
                forall|j: int| 0 <= j < n ==> #[trigger] fates@[j] == l.fate(screen@, before[j]),
            decreases before.len() - n,
        {
            fates.push(self.decide(screen, &self.minimize_animations[n]));
            n += 1;
        }
        let mut ids: Vec<WindowId> = Vec::new();
        let mut i: usize = 0;
        let mut done: usize = 0;
        assert(before.take(0).filter(lives).map_values(step) =~= Seq::empty()) by {
            reveal(Seq::filter);
        }
        assert(self.minimize_animations@.skip(0) =~= before.skip(0));
        assert(self.minimize_animations@.take(0) =~= Seq::empty());
        while i < self.minimize_animations.len()
            invariant
                before == l.minimize_animations,
                lives == (|animation: MinimizeAnimation<H>| !(l.fate(screen@, animation) is Ends)),
                step == (|animation: MinimizeAnimation<H>| l.followed(screen@, animation)),
                fates@.len() == before.len(),
                forall|j: int|
                    0 <= j < before.len() ==> #[trigger] fates@[j] == l.fate(screen@, before[j]),
                self@ == (LayoutView { minimize_animations: self.minimize_animations@, ..l }),
                i <= self.minimize_animations@.len(),
                done <= before.len(),
                self.minimize_animations@.take(i as int) == before.take(done as int).filter(
                    lives,
                ).map_values(step),
                self.minimize_animations@.skip(i as int) == before.skip(done as int),
                forall|id: WindowId| #[trigger]
                    ids@.contains(id) <==> exists|k: int|
                        0 <= k < i && (#[trigger] self.minimize_animations@[k]).id == id
                            && self.minimize_animations@[k].restoring,
            decreases self.minimize_animations@.len() - i,
        {
            let ghost list = self.minimize_animations@;
            let ghost a = before[done as int];
            assert(before.skip(done as int).len() == list.skip(i as int).len());
            assert(list.skip(i as int).len() == list.len() - i);
            assert(done < fates.len());
            assert(list.skip(i as int)[0] == before.skip(done as int)[0]);
            assert(list[i as int] == a);
            assert(fates@[done as int] == l.fate(screen@, a));
            assert(before.take(done + 1).drop_last() =~= before.take(done as int));
            assert(before.take(done + 1).filter(lives) == if lives(a) {
                before.take(done as int).filter(lives).push(a)
            } else {
                before.take(done as int).filter(lives)
            }) by {
                reveal(Seq::filter);
            }
            let ends = match &fates[done] {
                Fate::Ends => true,
                Fate::Continues => false,
                Fate::Follows(rect) => {
                    self.minimize_animations[i].window_rect = *rect;
                    false
                },
            };
            if ends {
                self.minimize_animations.remove(i);
                assert(self.minimize_animations@.take(i as int) =~= list.take(i as int));
                assert(self.minimize_animations@.skip(i as int) =~= list.skip(i as int).skip(1));
                assert forall|k: int| 0 <= k < i implies #[trigger] self.minimize_animations@[k]
                    == list[k] by {}
                assert forall|id: WindowId| #[trigger] ids@.contains(id) implies exists|k: int|
                    0 <= k < i && (#[trigger] self.minimize_animations@[k]).id == id
                        && self.minimize_animations@[k].restoring by {
                    let k = choose|k: int|
                        0 <= k < i && (#[trigger] list[k]).id == id && list[k].restoring;
                    assert(self.minimize_animations@[k].id == id);
                }
            } else {
                let ghost now = self.minimize_animations@;
                assert(now[i as int] == l.followed(screen@, a));
                let ghost listed = ids@;
                if self.minimize_animations[i].restoring {
                    ids.push(self.minimize_animations[i].id);
                }
                assert forall|id: WindowId| #[trigger]
                    ids@.contains(id) <==> exists|k: int|
                        0 <= k < i + 1 && (#[trigger] now[k]).id == id && now[k].restoring by {
                    if listed.contains(id) {
                        let k = choose|k: int|
                            0 <= k < i && (#[trigger] list[k]).id == id && list[k].restoring;
                        assert(now[k] == list[k]);
                        let j = choose|j: int| 0 <= j < listed.len() && listed[j] == id;
                        assert(ids@[j] == id);
                    } else {
                        if ids@.contains(id) {
                            let j = choose|j: int| 0 <= j < ids@.len() && ids@[j] == id;
                            if j < listed.len() {
                                assert(listed[j] == id);
                            }
                            assert(now[i as int].id == id);
                        }
                        if exists|k: int|
                            0 <= k < i + 1 && (#[trigger] now[k]).id == id && now[k].restoring {
                            let k = choose|k: int|
                                0 <= k < i + 1 && (#[trigger] now[k]).id == id && now[k].restoring;
                            if k < i {
                                assert(list[k] == now[k]);
                                assert(false);
                            }
                            assert(ids@[listed.len() as int] == id);
                        }
                    }
                }
                i += 1;
                assert(now.take(i as int) =~= list.take(i - 1).push(l.followed(screen@, a)));
                assert(now.skip(i as int) =~= list.skip(i - 1).skip(1));
                assert(before.take(done as int).filter(lives).push(a).map_values(step)
                    =~= before.take(done as int).filter(lives).map_values(step).push(
                    l.followed(screen@, a),
                ));
            }
            assert(before.skip(done + 1) =~= before.skip(done as int).skip(1));
            done += 1;
        }
        assert(before.skip(done as int).len() == 0);
        assert(before.take(done as int) =~= before);
        assert(self.minimize_animations@.take(i as int) =~= self.minimize_animations@);
        let ghost next = self@;
        assert(next == (LayoutView { minimize_animations: l.surviving(screen@), ..l }));
        let rule = Concealment::Only { ids };
        let ghost hidden = |tile: Tile<H>| next.is_restoring(tile.window.id);
        proof {
            assert(hidden =~= (|tile: Tile<H>| rule.conceals(tile)));
        }
        self.conceal(&rule);
        proof {
            lemma_concealed(next, hidden);
            lemma_advanced(l, screen@);
        }
    }
}

/// A window is on screen only once.
pub proof fn lemma_shown_once<H: Host>(
    l: LayoutView<H>,
    screen: Seq<OnScreen<H>>,
    slot: Slot<int>,
    place: Place<int>,
    k: int,
    id: WindowId,
)
    requires
        l.wf(),
        !l.overview_open,
        l.shown_at(screen, slot, place, k, id),
    ensures
        l.geometry(screen, id) == Some(l.geometry_at(screen, slot, k)),
{
    let (other_slot, other_place, j) = choose|s: Slot<int>, p: Place<int>, j: int|
        l.shown_at(screen, s, p, j, id);
    assert(l.shown_at(screen, other_slot, other_place, j, id));
    lemma_tiles_split(l, Key::Id(id));
    assert(count(l.tiles(), Key::Id(id)) <= 1);
    lemma_slot_unique(l, slot, place, other_slot, other_place, Key::Id(id));
    if j < k {
        assert(!screen[j].shows(l.workspace(slot).id, id));
    } else if k < j {
        assert(!screen[k].shows(l.workspace(slot).id, id));
    }
}

/// A window that its own workspace does not show is nowhere.
proof fn lemma_shown_nowhere<H: Host>(
    l: LayoutView<H>,
    screen: Seq<OnScreen<H>>,
    slot: Slot<int>,
    place: Place<int>,
    id: WindowId,
)
    requires
        l.wf(),
        l.holds_at(slot, place, id),
        slot is Orphan || forall|k: int|
            0 <= k < screen.len() ==> !(#[trigger] screen[k]).shows(l.workspace(slot).id, id),
    ensures
        l.geometry(screen, id) is None,
{
    assert forall|s: Slot<int>, p: Place<int>, k: int| !l.shown_at(screen, s, p, k, id) by {
        if l.shown_at(screen, s, p, k, id) {
            lemma_tiles_split(l, Key::Id(id));
            assert(count(l.tiles(), Key::Id(id)) <= 1);
            lemma_slot_unique(l, slot, place, s, p, Key::Id(id));
            assert(!screen[k].shows(l.workspace(slot).id, id));
        }
    }
}

/// A restore transition goes on only while its window is in a workspace.
proof fn lemma_survivor_held<H: Host>(l: LayoutView<H>, screen: Seq<OnScreen<H>>, id: WindowId)
    requires
        (LayoutView { minimize_animations: l.surviving(screen), ..l }).is_restoring(id),
    ensures
        l.holds(id),
{
    let lives = |animation: MinimizeAnimation<H>| !(l.fate(screen, animation) is Ends);
    let kept = l.minimize_animations.filter(lives);
    let next = LayoutView { minimize_animations: l.surviving(screen), ..l };
    let k = choose|k: int|
        0 <= k < next.minimize_animations.len() && (#[trigger] next.minimize_animations[k]).id == id
            && next.minimize_animations[k].restoring;
    lemma_filter_contains(l.minimize_animations, lives);
    assert(lives(kept[k]) && kept[k].id == id && kept[k].restoring);
    assert(l.geometry(screen, id) is Some);
    let (slot, place, j) = choose|slot: Slot<int>, place: Place<int>, j: int|
        l.shown_at(screen, slot, place, j, id);
    assert(l.shown_at(screen, slot, place, j, id));
    assert(l.holds_at(slot, place, id));
}

proof fn lemma_advanced<H: Host>(l: LayoutView<H>, screen: Seq<OnScreen<H>>)
    requires
        l.wf(),
    ensures
        l.with_advanced(screen).wf(),
{
    if l.minimize_animations.len() > 0 {
        let lives = |animation: MinimizeAnimation<H>| !(l.fate(screen, animation) is Ends);
        let next = LayoutView { minimize_animations: l.surviving(screen), ..l };
        let hidden = |tile: Tile<H>| next.is_restoring(tile.window.id);
        let after = next.with_concealment(hidden);
        assert(next.tiles() == l.tiles() && next.ordinary() == l.ordinary());
        lemma_concealed(next, hidden);
        lemma_filter_distinct(
            l.minimize_animations,
            lives,
            |animation: MinimizeAnimation<H>| animation.id,
        );
        assert forall|i: int, j: int| 0 <= i < j < after.minimize_animations.len() implies (
        #[trigger] after.minimize_animations[i]).id != (
        #[trigger] after.minimize_animations[j]).id by {
            let kept = l.minimize_animations.filter(lives);
            assert(kept[i].id != kept[j].id);
        }
        assert forall|i: int|
            0 <= i < next.tiles().len() && hidden(#[trigger] next.tiles()[i]) implies
            after.is_restoring(next.tiles()[i].window.id) by {
            let id = next.tiles()[i].window.id;
            let k = choose|k: int|
                0 <= k < next.minimize_animations.len() && (
                #[trigger] next.minimize_animations[k]).id == id
                    && next.minimize_animations[k].restoring;
            assert(after.minimize_animations[k].id == id);
        }
        assert forall|spot: Spot<int>| #[trigger] next.valid(spot) && !(spot is Held) implies
            !hidden(next.tile(spot)) by {
            let id = next.tile(spot).window.id;
            if next.is_restoring(id) {
                lemma_survivor_held(l, screen, id);
                assert(l.valid(spot) && l.tile(spot) == next.tile(spot));
                lemma_one_spot(l, spot, id);
            }
        }
        lemma_concealed_wf(next, hidden, after);
    }
}

} // verus!
