use std::cell::RefCell;

use window_minimization::advance::OnScreen;
use window_minimization::layout::{InteractiveMove, Layout};
use window_minimization::minimize_animation::MinimizeAnimation;
use window_minimization::render::EdgePlaces;
use window_minimization::targets::AnimationTarget;
use window_minimization::tile::{RemovedTile, Snapshot, Tile};
use window_minimization::types::{
    ActivateWindow, Animation, BlockOutFrom, Clock, DockEdge, Host, MinimizeEffect, Options,
    Output, OutputState, OwnerId, RenderTarget, Size, SizingMode, Transform, WindowId,
};
use window_minimization::window::Window;

struct TestHost;

impl Host for TestHost {
    type Handle = u64;
    type Rect = [f64; 4];
    type Extent = (f64, f64);
    type Position = (f64, f64);
    type Center = (f64, f64);
    type Offset = (f64, f64);
    type Width = i32;
    type Contents = String;
    type Image = String;
}

const MS: u64 = 1_000_000;
const DURATION: u64 = 280 * MS;
const WINDOW: [f64; 4] = [0., 0., 240., 180.];
const BOTTOM_CENTER: [f64; 4] = [384., 568., 32., 32.];

fn output(id: u64) -> Output {
    Output {
        id,
        state: OutputState {
            mode: Size { w: 800, h: 600 },
            scale: 1_f64.to_bits(),
            transform: Transform::Normal,
        },
    }
}

fn snapshot(id: WindowId) -> Snapshot<TestHost> {
    Snapshot {
        contents: format!("contents {id}"),
        blocked_out_contents: format!("blocked {id}"),
        contents_with_blocked_out_bg: Some(format!("background {id}")),
        block_out_from: None,
        size: (240., 180.),
        is_empty: false,
    }
}

fn new_tile(id: WindowId) -> Tile<TestHost> {
    Tile {
        window: Window {
            id,
            surface: id + 1000,
            handle: id * 7,
            size: Size { w: 240, h: 180 },
            requested_size: None,
            pending_sizing_mode: SizingMode::Normal,
            pending_windowed_fullscreen: false,
            activated: true,
            active_in_column: true,
            floating: false,
            minimized: false,
            interactive_resize: None,
            configure_due: false,
        },
        tile_size: (240., 180.),
        view_pos: None,
        floating_center: None,
        natural_width: 240,
        floating_window_size: None,
        restore_to_floating: false,
        minimize_animation_hidden: false,
        interactive_move_offset: None,
        open_animation: None,
        resize_animation: None,
        move_x_animation: None,
        move_y_animation: None,
        alpha_animation: None,
        unmap_snapshot: Some(snapshot(id)),
    }
}

/// A layout with an output and some windows on its rendered workspace.
fn layout_with(windows: &[WindowId]) -> Layout<TestHost> {
    let mut layout = Layout::new(
        Clock {
            now: 5 * MS,
            complete_instantly: false,
        },
        Options {
            window_minimize_duration: DURATION,
            window_minimize_effect: MinimizeEffect::Genie,
        },
    );
    layout.add_output(output(1));
    for id in windows {
        layout.add_window(
            RemovedTile {
                tile: new_tile(*id),
                width: 240,
                is_full_width: false,
                is_floating: false,
            },
            ActivateWindow::Yes,
        );
    }
    layout
}

/// What is on screen: the tiles of the active workspaces.
fn on_screen(layout: &Layout<TestHost>) -> Vec<OnScreen<TestHost>> {
    let mut screen = Vec::new();
    for monitor in &layout.monitors {
        let workspace = &monitor.workspaces[monitor.active_workspace_idx];
        for place in workspace.places() {
            screen.push(OnScreen {
                workspace: workspace.id,
                id: workspace.tile_at(&place).window.id,
                rect: WINDOW,
                visible: true,
            });
        }
    }
    screen
}

fn advance(layout: &mut Layout<TestHost>) {
    let screen = on_screen(layout);
    layout.advance_minimize_animations(&screen);
    assert!(layout.verify_invariants());
}

fn with_tile(layout: &mut Layout<TestHost>, id: WindowId, f: impl Fn(&mut Tile<TestHost>)) {
    for monitor in &mut layout.monitors {
        for workspace in &mut monitor.workspaces {
            for column in &mut workspace.columns {
                column.tiles.iter_mut().for_each(|tile| {
                    if tile.window.id == id {
                        f(tile)
                    }
                });
            }
        }
    }
}

fn is_hidden(layout: &Layout<TestHost>, id: WindowId) -> bool {
    layout
        .spots()
        .iter()
        .map(|spot| layout.tile_at(spot))
        .find(|tile| tile.window.id == id)
        .unwrap()
        .minimize_animation_hidden
}

fn target(id: WindowId, output: u64, x: f64) -> AnimationTarget<TestHost> {
    AnimationTarget {
        id,
        output,
        rect: [x, 552., 40., 40.],
        edge: DockEdge::Left,
        layer: None,
    }
}

fn prepare(
    layout: &mut Layout<TestHost>,
    id: WindowId,
    restoring: bool,
    live: &[OwnerId],
) -> Option<MinimizeAnimation<TestHost>> {
    let screen = on_screen(layout);
    prepare_on(layout, &screen, id, restoring, live)
}

fn prepare_on(
    layout: &mut Layout<TestHost>,
    screen: &Vec<OnScreen<TestHost>>,
    id: WindowId,
    restoring: bool,
    live: &[OwnerId],
) -> Option<MinimizeAnimation<TestHost>> {
    layout.prepare_minimize_animation(
        screen,
        &id,
        restoring,
        &live.to_vec(),
        true,
        |_| None,
        |_, rect, _| Some(rect),
        |_| BOTTOM_CENTER,
        |contents| Some(format!("picture of {contents}")),
    )
}

fn minimize(layout: &mut Layout<TestHost>, id: WindowId) {
    let animation = prepare(layout, id, false, &[]);
    assert!(layout.minimize_window(&id));
    if let Some(animation) = animation {
        layout.start_minimize_animation(animation);
    }
}

fn restore(layout: &mut Layout<TestHost>, id: WindowId) {
    let restored = layout.restore_window(Some(&id), None, ActivateWindow::Yes);
    assert_eq!(restored, Some(id));
    assert!(layout.store_unmap_snapshot(&id, snapshot(id)));
    if let Some(animation) = prepare(layout, id, true, &[]) {
        layout.start_minimize_animation(animation);
    }
}

fn owners(layout: &Layout<TestHost>) -> Vec<OwnerId> {
    layout.minimize_targets.iter().map(|h| h.owner).collect()
}

#[test]
fn hints_are_replaced_per_publisher_and_the_latest_wins() {
    let mut layout = layout_with(&[1, 2]);
    layout.set_window_animation_targets(&10, vec![target(1, 1, 1.), target(2, 1, 2.)]);
    layout.set_window_animation_targets(&20, vec![target(1, 1, 3.)]);
    assert_eq!(owners(&layout), vec![10, 10, 20]);
    let animation = prepare(&mut layout, 1, false, &[10, 20]).unwrap();
    assert_eq!(animation.dock_rect, [3., 552., 40., 40.]);
    assert_eq!(animation.edge, DockEdge::Left);

    // Publishing again makes the first publisher the latest.
    layout.set_window_animation_targets(&10, vec![target(1, 1, 4.), target(1, 1, 5.)]);
    assert_eq!(owners(&layout), vec![20, 10, 10]);
    assert!(layout.store_unmap_snapshot(&1, snapshot(1)));
    let animation = prepare(&mut layout, 1, false, &[10, 20]).unwrap();
    assert_eq!(animation.dock_rect[0], 5.);

    // A publisher that is gone does not count.
    assert!(layout.store_unmap_snapshot(&1, snapshot(1)));
    let animation = prepare(&mut layout, 1, false, &[20]).unwrap();
    assert_eq!(animation.dock_rect[0], 3.);

    // An empty set clears.
    layout.set_window_animation_targets(&10, vec![]);
    assert_eq!(owners(&layout), vec![20]);
    layout.clear_window_animation_targets(&20);
    assert!(layout.minimize_targets.is_empty());
}

#[test]
fn hints_for_other_windows_and_outputs_do_not_count() {
    let mut layout = layout_with(&[1, 2]);
    layout.add_output(output(2));
    layout.set_window_animation_targets(&10, vec![target(2, 1, 1.), target(1, 2, 2.)]);
    let animation = prepare(&mut layout, 1, false, &[10]).unwrap();
    assert_eq!(animation.dock_rect, BOTTOM_CENTER);
    assert_eq!(animation.edge, DockEdge::Bottom);

    layout.forget_window_animation_targets(&2);
    assert_eq!(layout.minimize_targets.len(), 1);
    assert_eq!(layout.minimize_targets[0].target.id, 1);
    layout.remove_animation_output(&2);
    assert!(layout.minimize_targets.is_empty());
}

#[test]
fn targets_on_layer_surfaces_follow_the_surface() {
    for mapped in [true, false] {
        let mut layout = layout_with(&[1]);
        let mut on_layer = target(1, 1, 8.);
        on_layer.layer = Some(3);
        on_layer.edge = DockEdge::Bottom;
        layout.set_window_animation_targets(&10, vec![on_layer]);
        let asked = RefCell::new(Vec::new());
        let screen = on_screen(&layout);
        let animation = layout
            .prepare_minimize_animation(
                &screen,
                &1,
                false,
                &vec![10],
                true,
                |target| {
                    asked.borrow_mut().push(target.layer);
                    mapped.then_some([48., 532., 40., 40.])
                },
                |output, rect, edge| {
                    assert_eq!((output, edge), (1, DockEdge::Bottom));
                    Some(rect)
                },
                |_| BOTTOM_CENTER,
                Some,
            )
            .unwrap();
        assert_eq!(*asked.borrow(), vec![Some(3)]);
        let expected = if mapped {
            [48., 532., 40., 40.]
        } else {
            BOTTOM_CENTER
        };
        assert_eq!(animation.dock_rect, expected);
    }
}

#[test]
fn unacceptable_targets_fall_back_to_the_bottom_center() {
    let mut layout = layout_with(&[1]);
    layout.set_window_animation_targets(&10, vec![target(1, 1, 1e20)]);
    let screen = on_screen(&layout);
    let animation = layout
        .prepare_minimize_animation(
            &screen,
            &1,
            false,
            &vec![10],
            true,
            |_| unreachable!(),
            |_, _, _| None,
            |output| {
                assert_eq!(output, 1);
                BOTTOM_CENTER
            },
            Some,
        )
        .unwrap();
    assert_eq!(animation.dock_rect, BOTTOM_CENTER);
    assert_eq!(animation.edge, DockEdge::Bottom);
}

#[test]
fn preparation_takes_the_snapshot_and_draws_its_pictures() {
    let mut layout = layout_with(&[1]);
    let animation = prepare(&mut layout, 1, true, &[]).unwrap();
    assert_eq!(animation.id, 1);
    assert_eq!(animation.output, 1);
    assert!(animation.restoring);
    assert_eq!(animation.window_rect, WINDOW);
    assert_eq!(animation.effect, MinimizeEffect::Genie);
    assert_eq!(animation.source_size, (240., 180.));
    assert_eq!(animation.output_state, output(1).state);
    assert_eq!(animation.normal, "picture of contents 1");
    assert_eq!(animation.blocked, "picture of blocked 1");
    assert_eq!(
        animation.blocked_background.as_deref(),
        Some("picture of background 1")
    );
    assert_eq!(
        animation.anim,
        Animation {
            start: 5 * MS,
            duration: DURATION
        }
    );
    // The snapshot is gone.
    assert!(prepare(&mut layout, 1, true, &[]).is_none());
}

#[test]
fn pictures_that_cannot_be_drawn_leave_no_transition() {
    for failing in ["contents 1", "blocked 1", "background 1"] {
        let mut layout = layout_with(&[1]);
        let screen = on_screen(&layout);
        let animation = layout.prepare_minimize_animation(
            &screen,
            &1,
            false,
            &vec![],
            true,
            |_| None,
            |_, rect, _| Some(rect),
            |_| BOTTOM_CENTER,
            |contents| (contents != failing).then_some(contents),
        );
        assert!(animation.is_none());
        assert!(layout.monitors[0].workspaces[0].columns[0].tiles[0]
            .unmap_snapshot
            .is_none());
        // The real window remains usable.
        assert!(layout.minimize_window(&1));
        assert_eq!(
            layout.restore_window(None, None, ActivateWindow::Yes),
            Some(1)
        );
        assert!(!is_hidden(&layout, 1));
    }
}

#[test]
fn without_the_shader_the_snapshot_is_scaled() {
    for available in [true, false] {
        let mut layout = layout_with(&[1]);
        let screen = on_screen(&layout);
        let animation = layout
            .prepare_minimize_animation(
                &screen,
                &1,
                false,
                &vec![],
                available,
                |_| None,
                |_, rect, _| Some(rect),
                |_| BOTTOM_CENTER,
                Some,
            )
            .unwrap();
        let expected = if available {
            MinimizeEffect::Genie
        } else {
            MinimizeEffect::Scale
        };
        assert_eq!(animation.effect, expected);
    }
}

#[test]
fn transitions_need_a_snapshot_a_visible_tile_and_time() {
    type Change = fn(&mut Layout<TestHost>);
    let changes: [Change; 6] = [
        |layout| with_tile(layout, 1, |tile| tile.unmap_snapshot = None),
        |layout| {
            with_tile(layout, 1, |tile| {
                tile.unmap_snapshot.as_mut().unwrap().is_empty = true
            })
        },
        |layout| layout.overview_open = true,
        |layout| layout.options.window_minimize_duration = 0,
        |layout| layout.clock.complete_instantly = true,
        |layout| {
            layout.remove_output(&1);
        },
    ];
    for change in changes {
        let mut layout = layout_with(&[1]);
        change(&mut layout);
        assert!(prepare(&mut layout, 1, false, &[]).is_none());
    }
    // Out of sight, in a workspace that is not drawn, or in another workspace.
    for (visible, workspace) in [(Some(false), 0), (None, 0), (Some(true), 9)] {
        let mut layout = layout_with(&[1]);
        let mut screen = on_screen(&layout);
        match visible {
            Some(visible) => {
                screen[0].visible = visible;
                screen[0].workspace += workspace;
            }
            None => screen.clear(),
        }
        assert!(prepare_on(&mut layout, &screen, 1, false, &[]).is_none());
    }
    let mut layout = layout_with(&[1]);
    assert!(prepare(&mut layout, 2, false, &[]).is_none());
    assert!(prepare(&mut layout, 1, false, &[]).is_some());
}

#[test]
fn restore_transition_hides_the_live_tile_until_it_completes() {
    let mut layout = layout_with(&[1, 2]);
    minimize(&mut layout, 1);
    assert_eq!(layout.minimize_animations.len(), 1);
    assert!(!layout.minimize_animations[0].restoring);
    restore(&mut layout, 1);
    // The new transition replaced the old one.
    assert_eq!(layout.minimize_animations.len(), 1);
    assert!(layout.minimize_animations[0].restoring);
    assert!(is_hidden(&layout, 1));
    assert!(!is_hidden(&layout, 2));

    // The window end follows the live tile, the Dock end is fixed.
    let moved = [240., 10., 250., 190.];
    let mut screen = on_screen(&layout);
    screen.iter_mut().for_each(|entry| {
        if entry.id == 1 {
            entry.rect = moved;
        }
    });
    layout.set_window_animation_targets(&10, vec![target(1, 1, 7.)]);
    layout.clock.now = 5 * MS + DURATION - 1;
    layout.advance_minimize_animations(&screen);
    assert_eq!(layout.minimize_animations.len(), 1);
    assert_eq!(layout.minimize_animations[0].window_rect, moved);
    assert_eq!(layout.minimize_animations[0].dock_rect, BOTTOM_CENTER);
    assert!(is_hidden(&layout, 1));

    layout.clock.now += 1;
    advance(&mut layout);
    assert!(layout.minimize_animations.is_empty());
    assert!(!is_hidden(&layout, 1));
}

#[test]
fn minimize_transition_keeps_its_window_end() {
    let mut layout = layout_with(&[1]);
    minimize(&mut layout, 1);
    layout.clock.now += 1;
    advance(&mut layout);
    assert_eq!(layout.minimize_animations.len(), 1);
    assert_eq!(layout.minimize_animations[0].window_rect, WINDOW);
}

#[test]
fn transitions_are_released_when_their_ground_is_gone() {
    type Change = fn(&mut Layout<TestHost>);
    let changes: [Change; 7] = [
        |layout| layout.clock.now += DURATION,
        |layout| layout.clock.complete_instantly = true,
        |layout| layout.overview_open = true,
        |layout| layout.remove_output(&1),
        |layout| {
            let mut turned = output(1);
            turned.state.transform = Transform::Rotated180;
            assert!(layout.update_output(turned));
        },
        |layout| {
            let mut scaled = output(1);
            scaled.state.scale = 1.5_f64.to_bits();
            assert!(layout.update_output(scaled));
        },
        |layout| {
            assert!(layout.remove_window(&1).is_some());
        },
    ];
    for change in changes {
        for restoring in [false, true] {
            let mut layout = layout_with(&[1, 2]);
            minimize(&mut layout, 1);
            if restoring {
                restore(&mut layout, 1);
            }
            assert_eq!(layout.minimize_animations.len(), 1);
            change(&mut layout);
            advance(&mut layout);
            assert!(layout.minimize_animations.is_empty());
            for spot in layout.spots() {
                assert!(!layout.tile_at(&spot).minimize_animation_hidden);
            }
        }
    }
}

#[test]
fn restore_transition_ends_when_its_tile_leaves_the_screen() {
    for other_output in [false, true] {
        let mut layout = layout_with(&[1]);
        layout.add_output(output(2));
        minimize(&mut layout, 1);
        restore(&mut layout, 1);
        assert!(is_hidden(&layout, 1));
        if other_output {
            // The window shows up on the other output.
            assert!(layout.minimize_window(&1));
            let restored = layout.restore_window(Some(&1), Some(&2), ActivateWindow::Yes);
            assert_eq!(restored, Some(1));
            advance(&mut layout);
        } else {
            let mut screen = on_screen(&layout);
            screen[0].visible = false;
            layout.advance_minimize_animations(&screen);
        }
        assert!(layout.minimize_animations.is_empty());
        assert!(!is_hidden(&layout, 1));
    }
}

#[test]
fn a_tile_is_not_left_hidden_when_a_restore_is_interrupted() {
    let mut layout = layout_with(&[1]);
    minimize(&mut layout, 1);
    restore(&mut layout, 1);
    assert!(is_hidden(&layout, 1));
    // Minimized again while it was being restored.
    assert!(layout.store_unmap_snapshot(&1, snapshot(1)));
    minimize(&mut layout, 1);
    assert!(!is_hidden(&layout, 1));
    layout.clock.now += DURATION;
    advance(&mut layout);
    // Restored with transitions switched off.
    layout.options.window_minimize_duration = 0;
    restore(&mut layout, 1);
    assert!(layout.minimize_animations.is_empty());
    assert!(!is_hidden(&layout, 1));
}

#[test]
fn cancelling_reveals_the_live_tile() {
    let mut layout = layout_with(&[1, 2]);
    for id in [1, 2] {
        minimize(&mut layout, id);
        restore(&mut layout, id);
    }
    assert!(is_hidden(&layout, 1) && is_hidden(&layout, 2));
    layout.cancel_window_animation(&1);
    assert!(!is_hidden(&layout, 1));
    assert!(is_hidden(&layout, 2));
    assert_eq!(layout.minimize_animations.len(), 1);
    assert_eq!(layout.minimize_animations[0].id, 2);
    layout.cancel_minimize_animations();
    assert!(!is_hidden(&layout, 2));
    assert!(layout.minimize_animations.is_empty());
}

#[test]
fn transitions_own_no_window() {
    let mut layout = layout_with(&[1, 2]);
    let handles = |layout: &Layout<TestHost>| -> Vec<(WindowId, u64)> {
        layout
            .managed_windows()
            .into_iter()
            .map(|(_, window)| (window.id, window.handle))
            .collect()
    };
    let animation = prepare(&mut layout, 1, true, &[]).unwrap();
    layout.start_minimize_animation(animation);
    assert_eq!(handles(&layout), vec![(1, 7), (2, 14)]);
    advance(&mut layout);
    assert_eq!(handles(&layout), vec![(1, 7), (2, 14)]);
    layout.cancel_window_animation(&1);
    assert_eq!(handles(&layout), vec![(1, 7), (2, 14)]);
    layout.cancel_minimize_animations();
    assert_eq!(handles(&layout), vec![(1, 7), (2, 14)]);
}

#[test]
fn advancing_without_transitions_changes_nothing() {
    let mut layout = layout_with(&[1]);
    advance(&mut layout);
    assert!(layout.minimize_animations.is_empty());
    assert!(layout.has_window(&1));
}

#[test]
fn removing_an_output_ends_only_its_transitions() {
    let mut layout = layout_with(&[1]);
    layout.add_output(output(2));
    minimize(&mut layout, 1);
    layout.active_monitor_idx = 1;
    layout.add_window(
        RemovedTile {
            tile: new_tile(2),
            width: 240,
            is_full_width: false,
            is_floating: false,
        },
        ActivateWindow::Yes,
    );
    minimize(&mut layout, 2);
    assert_eq!(layout.minimize_animations.len(), 2);
    layout.remove_animation_output(&1);
    assert_eq!(layout.minimize_animations.len(), 1);
    assert_eq!(layout.minimize_animations[0].output, 2);
}

#[test]
fn recipients_see_what_they_may() {
    let mut layout = layout_with(&[1]);
    let mut animation = prepare(&mut layout, 1, false, &[]).unwrap();
    let targets = [
        RenderTarget::Output,
        RenderTarget::Screencast,
        RenderTarget::ScreenCapture,
    ];
    let normal = "picture of contents 1";
    let blocked = "picture of blocked 1";
    let background = "picture of background 1";
    let seen = |animation: &MinimizeAnimation<TestHost>| -> Vec<String> {
        targets
            .iter()
            .map(|target| animation.render(*target).image.clone())
            .collect()
    };
    assert_eq!(seen(&animation), vec![normal, background, background]);
    animation.block_out_from = Some(BlockOutFrom::Screencast);
    assert_eq!(seen(&animation), vec![normal, blocked, background]);
    animation.block_out_from = Some(BlockOutFrom::ScreenCapture);
    assert_eq!(seen(&animation), vec![normal, blocked, blocked]);
    animation.block_out_from = None;
    animation.blocked_background = None;
    assert_eq!(seen(&animation), vec![normal, normal, normal]);
}

#[test]
fn restoring_runs_backwards() {
    let mut layout = layout_with(&[1]);
    let mut animation = prepare(&mut layout, 1, false, &[]).unwrap();
    assert_eq!(animation.endpoints(), (WINDOW, BOTTOM_CENTER));
    animation.restoring = true;
    assert_eq!(animation.endpoints(), (BOTTOM_CENTER, WINDOW));
    let frame = animation.render(RenderTarget::Output);
    assert_eq!((frame.from, frame.to), (BOTTOM_CENTER, WINDOW));
}

#[test]
fn transitions_are_drawn_on_their_output_the_most_recent_first() {
    let mut layout = layout_with(&[1, 2, 3]);
    for id in [1, 2, 3] {
        minimize(&mut layout, id);
    }
    layout.minimize_animations[1].output = 9;
    let drawn = |layout: &Layout<TestHost>, output: u64| -> Vec<WindowId> {
        layout
            .render_minimize_animations(&output, RenderTarget::Output)
            .iter()
            .map(|frame| frame.animation.id)
            .collect()
    };
    assert_eq!(drawn(&layout, 1), vec![3, 1]);
    assert_eq!(drawn(&layout, 9), vec![2]);
    assert_eq!(drawn(&layout, 7), vec![]);
}

#[test]
fn a_sheet_that_folds_is_replaced_by_the_scaled_picture() {
    let mut layout = layout_with(&[1]);
    let mut animation = prepare(&mut layout, 1, false, &[]).unwrap();
    assert_eq!(animation.effect, MinimizeEffect::Genie);
    assert_eq!(animation.drawn(Some("sheet")), Some("sheet"));
    assert_eq!(animation.drawn::<&str>(None), None);
    animation.effect = MinimizeEffect::Scale;
    assert_eq!(animation.drawn(Some("sheet")), None);
}

#[test]
fn only_tiles_in_workspaces_are_hidden() {
    // A transition that starts while its window is minimized hides nothing.
    let mut layout = layout_with(&[1, 2]);
    let early = prepare(&mut layout, 1, true, &[]).unwrap();
    assert!(layout.minimize_window(&1));
    layout.start_minimize_animation(early);
    assert!(!is_hidden(&layout, 1) && !is_hidden(&layout, 2));
    assert!(layout.is_minimized(&1));
    assert!(layout.verify_invariants());
    assert_eq!(
        layout.restore_window(Some(&1), None, ActivateWindow::Yes),
        Some(1)
    );
    assert!(!is_hidden(&layout, 1));

    // Neither does one whose window the pointer holds.
    let mut layout = layout_with(&[1, 2]);
    let early = prepare(&mut layout, 1, true, &[]).unwrap();
    let removed = layout.remove_window(&1).unwrap();
    layout.interactive_move = Some(InteractiveMove { removed, output: 1 });
    layout.start_minimize_animation(early);
    assert!(!is_hidden(&layout, 1) && !is_hidden(&layout, 2));
    assert_eq!(layout.minimize_animations.len(), 1);
    assert!(layout.verify_invariants());

    // A tile that is hidden already stays so while others start.
    let mut layout = layout_with(&[1, 2]);
    let first = prepare(&mut layout, 1, true, &[]).unwrap();
    let second = prepare(&mut layout, 2, true, &[]).unwrap();
    layout.start_minimize_animation(first);
    layout.start_minimize_animation(second);
    assert!(is_hidden(&layout, 1) && is_hidden(&layout, 2));
    assert!(layout.verify_invariants());
}

#[test]
fn restored_windows_have_no_transition_until_they_are_drawn() {
    let mut layout = layout_with(&[1]);
    let stale = on_screen(&layout);
    assert!(layout.minimize_window(&1));
    layout.monitors[0].active_workspace_idx = 0;
    layout.add_output(output(2));
    assert_eq!(
        layout.restore_window(Some(&1), Some(&2), ActivateWindow::Yes),
        Some(1)
    );
    // What was on screen before does not count for the new place.
    assert!(layout.store_unmap_snapshot(&1, snapshot(1)));
    assert!(prepare_on(&mut layout, &stale, 1, true, &[]).is_none());
    assert!(layout.store_unmap_snapshot(&1, snapshot(1)));
    let animation = prepare(&mut layout, 1, true, &[]).unwrap();
    assert_eq!(animation.output, 2);
    assert!(!layout.store_unmap_snapshot(&9, snapshot(9)));
}

#[test]
fn publishing_the_same_targets_again_changes_nothing() {
    let mut layout = layout_with(&[1, 2]);
    layout.set_window_animation_targets(&20, vec![target(1, 1, 3.)]);
    let published = |layout: &Layout<TestHost>| -> Vec<(OwnerId, WindowId, f64)> {
        layout
            .minimize_targets
            .iter()
            .map(|hint| (hint.owner, hint.target.id, hint.target.rect[0]))
            .collect()
    };
    for _ in 0..2 {
        layout.set_window_animation_targets(&10, vec![target(1, 1, 1.), target(2, 1, 2.)]);
        assert_eq!(
            published(&layout),
            vec![(20, 1, 3.), (10, 1, 1.), (10, 2, 2.)]
        );
    }
}

#[test]
fn dock_edges() {
    let places = || EdgePlaces {
        near_x: 200.,
        near_y: 100.,
        min: 0.,
        max_x: 768.,
        max_y: 568.,
    };
    assert_eq!(DockEdge::Left.place(places()), (0., 100.));
    assert_eq!(DockEdge::Right.place(places()), (768., 100.));
    assert_eq!(DockEdge::Top.place(places()), (200., 0.));
    assert_eq!(DockEdge::Bottom.place(places()), (200., 568.));
    assert_eq!(DockEdge::Bottom.shader_index(), 0);
    assert_eq!(DockEdge::Left.shader_index(), 1);
    assert_eq!(DockEdge::Right.shader_index(), 2);
    assert_eq!(DockEdge::Top.shader_index(), 3);
}
