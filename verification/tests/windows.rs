use window_minimization::layout::{InteractiveMove, Layout};
use window_minimization::tile::{RemovedTile, Tile};
use window_minimization::types::{
    ActivateWindow, Animation, Clock, Host, MinimizeEffect, Options, Output, OutputId,
    OutputState, Size, SizeRequest, SizingMode, Transform, WindowId,
};
use window_minimization::window::Window;
use window_minimization::workspace::{Place, Workspace};

struct TestHost;

impl Host for TestHost {
    type Handle = u64;
    type Rect = [f64; 4];
    type Extent = (f64, f64);
    type Position = (f64, f64);
    type Center = (f64, f64);
    type Offset = (f64, f64);
    type Width = i32;
    type Contents = String;
    type Image = String;
}

fn new_layout() -> Layout<TestHost> {
    Layout::new(
        Clock {
            now: 100,
            complete_instantly: false,
        },
        Options {
            window_minimize_duration: 0,
            window_minimize_effect: MinimizeEffect::Scale,
        },
    )
}

fn output(id: OutputId) -> Output {
    Output {
        id,
        state: OutputState {
            mode: Size { w: 1280, h: 720 },
            scale: 1_f64.to_bits(),
            transform: Transform::Normal,
        },
    }
}

fn new_window(id: WindowId, floating: bool) -> RemovedTile<TestHost> {
    RemovedTile {
        tile: Tile {
            window: Window {
                id,
                surface: id + 1000,
                handle: id * 7,
                size: Size { w: 100, h: 200 },
                requested_size: None,
                pending_sizing_mode: SizingMode::Normal,
                pending_windowed_fullscreen: false,
                activated: true,
                active_in_column: true,
                floating,
                minimized: false,
                interactive_resize: Some(5),
                configure_due: false,
            },
            tile_size: (100., 200.),
            view_pos: None,
            floating_center: Some((0.25, 0.75)),
            natural_width: 333,
            floating_window_size: None,
            restore_to_floating: false,
            minimize_animation_hidden: false,
            interactive_move_offset: Some((1., 2.)),
            open_animation: Some(Animation {
                start: 0,
                duration: 50,
            }),
            resize_animation: Some(Animation {
                start: 90,
                duration: 50,
            }),
            move_x_animation: Some(Animation {
                start: 90,
                duration: 50,
            }),
            move_y_animation: Some(Animation {
                start: 90,
                duration: 50,
            }),
            alpha_animation: Some(Animation {
                start: 90,
                duration: 50,
            }),
            unmap_snapshot: None,
        },
        width: 444,
        is_full_width: true,
        is_floating: floating,
    }
}

fn add(layout: &mut Layout<TestHost>, id: WindowId, floating: bool) {
    layout.add_window(new_window(id, floating), ActivateWindow::Yes);
}

fn workspace(layout: &Layout<TestHost>) -> &Workspace<TestHost> {
    let monitor = &layout.monitors[layout.active_monitor_idx];
    &monitor.workspaces[monitor.active_workspace_idx]
}

fn column_ids(workspace: &Workspace<TestHost>) -> Vec<Vec<WindowId>> {
    workspace
        .columns
        .iter()
        .map(|c| c.tiles.iter().map(|t| t.window.id).collect())
        .collect()
}

fn floating_ids(workspace: &Workspace<TestHost>) -> Vec<WindowId> {
    workspace.floating.iter().map(|t| t.window.id).collect()
}

fn queue(layout: &Layout<TestHost>) -> Vec<WindowId> {
    layout.minimized_windows.iter().map(|e| e.id()).collect()
}

fn mode(layout: &Layout<TestHost>, id: WindowId) -> SizingMode {
    layout
        .managed_windows()
        .into_iter()
        .find(|(_, window)| window.id == id)
        .unwrap()
        .1
        .pending_sizing_mode
}

#[test]
fn a_minimized_tile_is_at_rest() {
    let mut layout = new_layout();
    layout.add_output(output(1));
    add(&mut layout, 1, false);
    assert!(layout.minimize_window(&1));
    let entry = &layout.minimized_windows[0];
    let tile = &entry.removed.tile;
    assert_eq!(tile.window.interactive_resize, None);
    assert!(!tile.window.activated && !tile.window.active_in_column);
    assert!(!tile.window.floating);
    assert!(tile.window.minimized && tile.window.configure_due);
    assert_eq!(tile.interactive_move_offset, None);
    assert_eq!(tile.move_x_animation, None);
    assert_eq!(tile.move_y_animation, None);
    assert_eq!(tile.alpha_animation, None);
    assert!(tile.resize_animation.is_some());
    assert_eq!(entry.removed.width, 444);
    assert!(entry.removed.is_full_width && !entry.removed.is_floating);
    assert_eq!(entry.floating_center, Some((0.25, 0.75)));

    assert_eq!(
        layout.restore_window(None, None, ActivateWindow::Yes),
        Some(1)
    );
    let column = &workspace(&layout).columns[0];
    assert_eq!((column.width, column.is_full_width), (444, true));
    let tile = &column.tiles[0];
    assert!(!tile.window.minimized);
    assert_eq!(tile.window.handle, 7);
    // Finished animations are dropped on the way back.
    assert_eq!(tile.open_animation, None);
    assert!(tile.resize_animation.is_some());
}

#[test]
fn floating_windows_come_back_on_top() {
    let mut layout = new_layout();
    layout.add_output(output(1));
    add(&mut layout, 1, true);
    add(&mut layout, 2, true);
    assert_eq!(floating_ids(workspace(&layout)), vec![2, 1]);
    assert!(layout.minimize_window(&1));
    assert!(layout.minimized_windows[0].removed.is_floating);
    assert!(layout.minimized_windows[0].removed.tile.window.floating);
    assert_eq!(layout.minimized_windows[0].removed.width, 333);
    assert_eq!(
        layout.restore_window(None, None, ActivateWindow::No),
        Some(1)
    );
    assert_eq!(floating_ids(workspace(&layout)), vec![1, 2]);
    assert_eq!(layout.focus(), Some(2));
    assert_eq!(
        workspace(&layout).floating[0].floating_center,
        Some((0.25, 0.75))
    );
}

#[test]
fn tiled_windows_come_back_right_of_the_active_column() {
    let mut layout = new_layout();
    layout.add_output(output(1));
    for id in [1, 2, 3] {
        add(&mut layout, id, false);
    }
    assert!(layout.minimize_window(&3));
    layout.monitors[0].workspaces[0].active_column_idx = 0;
    assert_eq!(
        layout.restore_window(None, None, ActivateWindow::No),
        Some(3)
    );
    assert_eq!(column_ids(workspace(&layout)), vec![vec![1], vec![3], vec![2]]);
    assert_eq!(layout.focus(), Some(1));
    assert!(layout.minimize_window(&3));
    assert_eq!(
        layout.restore_window(Some(&3), None, ActivateWindow::Yes),
        Some(3)
    );
    assert_eq!(layout.focus(), Some(3));
}

#[test]
fn smart_activation_spares_a_fullscreen_window() {
    for fullscreen in [false, true] {
        let mut layout = new_layout();
        layout.add_output(output(1));
        add(&mut layout, 1, false);
        add(&mut layout, 2, false);
        assert!(layout.minimize_window(&1));
        layout.set_fullscreen(&2, fullscreen);
        assert_eq!(
            layout.restore_window(None, None, ActivateWindow::Smart),
            Some(1)
        );
        assert_eq!(layout.focus(), Some(if fullscreen { 2 } else { 1 }));
    }
}

#[test]
fn restoring_to_an_output_activates_it_only_on_demand() {
    for (activate, expected) in [
        (ActivateWindow::Yes, 1),
        (ActivateWindow::Smart, 0),
        (ActivateWindow::No, 0),
    ] {
        let mut layout = new_layout();
        layout.add_output(output(1));
        layout.add_output(output(2));
        add(&mut layout, 1, false);
        assert!(layout.minimize_window(&1));
        assert_eq!(layout.restore_window(Some(&1), Some(&2), activate), Some(1));
        assert_eq!(layout.active_monitor_idx, expected);
        assert!(layout.monitors[1].workspaces[0].has_window(&1));
        // A workspace was added below the one that is no longer empty.
        assert_eq!(layout.monitors[1].workspaces.len(), 2);
    }
}

#[test]
fn failed_requests_change_nothing() {
    let mut layout = new_layout();
    layout.add_output(output(1));
    add(&mut layout, 1, false);
    add(&mut layout, 2, false);
    assert!(layout.minimize_window(&1));
    assert!(!layout.minimize_window(&1));
    assert!(!layout.minimize_window(&9));
    assert_eq!(
        layout.restore_window(Some(&2), None, ActivateWindow::Yes),
        None
    );
    assert_eq!(
        layout.restore_window(Some(&1), Some(&7), ActivateWindow::Yes),
        None
    );
    assert_eq!(queue(&layout), vec![1]);
    assert_eq!(column_ids(workspace(&layout)), vec![vec![2]]);
}

#[test]
fn the_queue_keeps_its_order() {
    let mut layout = new_layout();
    layout.add_output(output(1));
    for id in 1..=5 {
        add(&mut layout, id, false);
    }
    for id in [4, 2, 5, 1] {
        assert!(layout.minimize_window(&id));
    }
    assert_eq!(queue(&layout), vec![4, 2, 5, 1]);
    assert_eq!(
        layout.restore_window(Some(&2), None, ActivateWindow::Yes),
        Some(2)
    );
    assert_eq!(queue(&layout), vec![4, 5, 1]);
    assert!(layout.minimize_window(&2));
    assert_eq!(queue(&layout), vec![4, 5, 1, 2]);
    for id in [2, 1, 5, 4] {
        assert_eq!(
            layout.restore_window(None, None, ActivateWindow::No),
            Some(id)
        );
    }
}

#[test]
fn minimizing_ends_an_interactive_move() {
    for outputs in [0, 2] {
        let mut layout = new_layout();
        for id in 1..=outputs {
            layout.add_output(output(id));
        }
        layout.interactive_move = Some(InteractiveMove {
            removed: new_window(1, true),
            output: 2,
        });
        assert!(layout.has_window(&1));
        assert!(layout.minimize_window(&1));
        assert!(layout.interactive_move.is_none());
        assert!(layout.is_minimized(&1));
        // No placeholder is left where the pointer let go of it.
        let workspaces = layout.monitors.iter().flat_map(|m| &m.workspaces);
        for workspace in workspaces.chain(&layout.orphans) {
            assert!(workspace.columns.iter().all(|c| !c.tiles.is_empty()));
        }
        assert!(layout.orphans.is_empty());
        assert!(!layout.has_window(&1));
        assert!(layout.minimized_windows[0].removed.is_floating);
        if outputs > 0 {
            // The pointer was on the second output.
            assert_eq!(layout.active_monitor_idx, 1);
        }
    }
}

#[test]
fn a_move_of_another_window_goes_on() {
    let mut layout = new_layout();
    layout.add_output(output(1));
    add(&mut layout, 2, false);
    layout.interactive_move = Some(InteractiveMove {
        removed: new_window(1, true),
        output: 1,
    });
    assert!(layout.minimize_window(&2));
    assert!(layout.interactive_move.is_some());
    assert_eq!(layout.managed_windows().len(), 2);
}

#[test]
fn named_workspaces_stay() {
    for named in [false, true] {
        let mut layout = new_layout();
        layout.add_output(output(1));
        add(&mut layout, 1, false);
        layout.monitors[0].workspaces[0].is_named = named;
        layout.monitors[0].active_workspace_idx = 1;
        assert!(layout.minimize_window(&1));
        let left = layout.monitors[0].workspaces.len();
        assert_eq!(left, if named { 2 } else { 1 });
        assert_eq!(
            layout.monitors[0].active_workspace_idx,
            if named { 1 } else { 0 }
        );
    }
}

#[test]
fn the_active_workspace_stays_when_it_becomes_empty() {
    let mut layout = new_layout();
    layout.add_output(output(1));
    add(&mut layout, 1, false);
    let id = workspace(&layout).id;
    assert!(layout.minimize_window(&1));
    assert_eq!(workspace(&layout).id, id);
    assert!(workspace(&layout).has_no_windows());
}

#[test]
fn focus_passes_to_what_takes_the_place() {
    let mut layout = new_layout();
    layout.add_output(output(1));
    for id in [1, 2, 3] {
        add(&mut layout, id, false);
    }
    layout.monitors[0].workspaces[0].active_column_idx = 1;
    assert!(layout.minimize_window(&2));
    assert_eq!(layout.focus(), Some(3));
    assert!(layout.minimize_window(&3));
    assert_eq!(layout.focus(), Some(1));
    add(&mut layout, 4, true);
    assert_eq!(layout.focus(), Some(4));
    assert!(layout.minimize_window(&4));
    assert_eq!(layout.focus(), Some(1));
    assert!(layout.minimize_window(&1));
    assert_eq!(layout.focus(), None);
}

#[test]
fn every_managed_window_is_reported_once_and_in_order() {
    let mut layout = new_layout();
    layout.add_output(output(1));
    layout.add_output(output(2));
    for id in [1, 2] {
        add(&mut layout, id, false);
    }
    add(&mut layout, 3, true);
    layout.active_monitor_idx = 1;
    add(&mut layout, 4, false);
    add(&mut layout, 5, false);
    assert!(layout.minimize_window(&5));
    layout.interactive_move = Some(InteractiveMove {
        removed: new_window(6, true),
        output: 2,
    });
    assert!(layout.set_floating_position(&3, (3., 20.), (0.1, 0.2)));
    let workspaces = [
        layout.monitors[0].workspaces[0].id,
        layout.monitors[1].workspaces[0].id,
    ];
    let reports = layout.with_managed_windows(|window, output, workspace, layout| {
        (
            window.id,
            output,
            workspace,
            layout.pos_in_scrolling_layout,
            layout.tile_pos_in_workspace_view,
            layout.window_size,
        )
    });
    let size = Size { w: 100, h: 200 };
    assert_eq!(
        reports,
        vec![
            (6, Some(2), None, None, None, size),
            (1, Some(1), Some(workspaces[0]), Some((1, 1)), None, size),
            (2, Some(1), Some(workspaces[0]), Some((2, 1)), None, size),
            (
                3,
                Some(1),
                Some(workspaces[0]),
                None,
                Some((3., 20.)),
                size
            ),
            (4, Some(2), Some(workspaces[1]), Some((1, 1)), None, size),
            (5, None, None, None, None, size),
        ]
    );
    let monitors: Vec<(WindowId, Option<OutputId>)> = layout
        .managed_windows()
        .into_iter()
        .map(|(monitor, window)| (window.id, monitor.map(|m| m.output.id)))
        .collect();
    assert_eq!(
        monitors,
        vec![
            (6, Some(2)),
            (1, Some(1)),
            (2, Some(1)),
            (3, Some(1)),
            (4, Some(2)),
            (5, None),
        ]
    );
    assert!(layout.has_managed_window(&5));
    assert!(!layout.has_managed_window(&7));
}

#[test]
fn windows_can_be_changed_wherever_they_are() {
    let mut layout = new_layout();
    layout.add_output(output(1));
    add(&mut layout, 1, false);
    add(&mut layout, 2, false);
    assert!(layout.minimize_window(&2));
    let mut seen = Vec::new();
    layout.with_managed_windows_mut(|window, output| {
        seen.push((window.id, output));
        window.size = Size {
            w: window.id as i32,
            h: 1,
        };
    });
    assert_eq!(seen, vec![(1, Some(1)), (2, None)]);
    assert_eq!(workspace(&layout).columns[0].tiles[0].window.size.w, 1);
    assert_eq!(layout.minimized_windows[0].removed.tile.window.size.w, 2);

    // A hidden client commits a new size.
    let (window, place) = layout.find_managed_window_and_output_mut(&1002).unwrap();
    assert_eq!(place, None);
    window.size = Size { w: 350, h: 220 };
    let (window, place) = layout.find_managed_window_and_output_mut(&1001).unwrap();
    assert_eq!(place, Some(1));
    window.size = Size { w: 9, h: 9 };
    assert!(layout.find_managed_window_and_output_mut(&5).is_none());
    let (window, place) = layout.find_managed_window_and_output(&1002).unwrap();
    assert_eq!((window.id, window.size.w, place), (2, 350, None));
    let (window, place) = layout.find_managed_window_and_output(&1001).unwrap();
    assert_eq!((window.id, window.size.w, place), (1, 9, Some(1)));
    assert!(layout.find_managed_window_and_output(&5).is_none());
}

#[test]
fn a_harmless_callback_keeps_the_layout_working() {
    let mut layout = new_layout();
    layout.add_output(output(1));
    add(&mut layout, 1, false);
    add(&mut layout, 2, true);
    assert!(layout.minimize_window(&1));
    layout.with_managed_windows_mut(|window, _| window.configure_due = true);
    assert!(layout.verify_invariants());
    assert_eq!(queue(&layout), vec![1]);
    assert_eq!(layout.focus(), Some(2));
    assert_eq!(
        layout.restore_window(None, None, ActivateWindow::Yes),
        Some(1)
    );
    assert_eq!(layout.focus(), Some(1));
}

#[test]
fn a_restore_request_names_one_output_and_one_window() {
    let mut layout = new_layout();
    for id in [1, 2, 3] {
        layout.add_output(output(id));
    }
    for id in [1, 2, 3] {
        add(&mut layout, id, false);
    }
    for id in [1, 2, 3] {
        assert!(layout.minimize_window(&id));
    }
    assert_eq!(
        layout.restore_window(Some(&2), Some(&3), ActivateWindow::No),
        Some(2)
    );
    assert!(layout.monitors[2].workspaces[0].has_window(&2));
    assert_eq!(queue(&layout), vec![1, 3]);
}

#[test]
fn sharing_a_surface_is_settled_in_a_fixed_order() {
    let mut layout = new_layout();
    layout.add_output(output(1));
    add(&mut layout, 1, false);
    let mut twin = new_window(2, false);
    twin.tile.window.surface = 1001;
    layout.add_window(twin, ActivateWindow::Yes);
    assert!(layout.minimize_window(&2));
    let (window, _) = layout.find_managed_window_and_output(&1001).unwrap();
    assert_eq!(window.id, 1);
    let (window, _) = layout.find_managed_window_and_output_mut(&1001).unwrap();
    assert_eq!(window.id, 2);
}

#[test]
fn reading_and_changing_reach_the_same_window() {
    let mut layout = new_layout();
    layout.add_output(output(1));
    for id in [1, 2, 3] {
        add(&mut layout, id, id == 2);
    }
    assert!(layout.minimize_window(&3));
    layout.interactive_move = Some(InteractiveMove {
        removed: new_window(4, true),
        output: 1,
    });
    for id in [1, 2, 3, 4] {
        let surface = id + 1000;
        let (window, place) = layout.find_managed_window_and_output(&surface).unwrap();
        let read = (window.id, place);
        let (window, place) = layout.find_managed_window_and_output_mut(&surface).unwrap();
        assert_eq!((window.id, place), read);
        assert_eq!(window.id, id);
    }
}

#[test]
fn floating_positions_are_found_anew_after_a_restore() {
    let mut layout = new_layout();
    layout.add_output(output(1));
    add(&mut layout, 1, true);
    add(&mut layout, 2, false);
    let position = |layout: &Layout<TestHost>| {
        layout
            .with_managed_windows(|window, _, _, layout| {
                (window.id, layout.tile_pos_in_workspace_view)
            })
            .into_iter()
            .find(|(id, _)| *id == 1)
            .unwrap()
            .1
    };
    assert_eq!(position(&layout), None);
    assert!(layout.set_floating_position(&1, (113., 79.), (0.3, 0.6)));
    assert_eq!(position(&layout), Some((113., 79.)));
    // Only floating windows in workspaces have one.
    assert!(!layout.set_floating_position(&2, (0., 0.), (0., 0.)));
    assert!(!layout.set_floating_position(&9, (0., 0.), (0., 0.)));
    assert!(layout.minimize_window(&1));
    assert_eq!(position(&layout), None);
    assert!(!layout.set_floating_position(&1, (0., 0.), (0., 0.)));
    assert_eq!(
        layout.restore_window(None, None, ActivateWindow::Yes),
        Some(1)
    );
    assert_eq!(position(&layout), None);
    assert_eq!(
        workspace(&layout).floating[0].floating_center,
        Some((0.3, 0.6))
    );
}

#[test]
fn broken_layouts_are_told_from_sound_ones() {
    type Change = fn(&mut Layout<TestHost>);
    let changes: [Change; 15] = [
        |layout| layout.active_monitor_idx = 2,
        |layout| layout.monitors[1].output.id = 1,
        |layout| layout.monitors[0].active_workspace_idx = 9,
        |layout| layout.monitors[0].workspaces.truncate(1),
        |layout| layout.monitors[0].workspaces[1].is_named = true,
        |layout| layout.monitors[0].workspaces[0].active_column_idx = 2,
        |layout| layout.monitors[0].workspaces[0].active_floating = Some(7),
        |layout| layout.monitors[0].workspaces[0].active_floating = None,
        |layout| layout.monitors[0].workspaces[0].columns[0].tiles.clear(),
        |layout| layout.monitors[0].workspaces[0].columns[0].is_pending_fullscreen = true,
        |layout| layout.monitors[0].workspaces[0].floating[0].window.id = 1,
        |layout| layout.monitors[0].workspaces[0].floating[0].window.minimized = true,
        |layout| layout.monitors[0].workspaces[0].floating[0].minimize_animation_hidden = true,
        |layout| layout.minimized_windows[0].removed.tile.window.minimized = false,
        |layout| layout.minimized_windows[0].maximized = true,
    ];
    for change in changes {
        let mut layout = new_layout();
        layout.add_output(output(1));
        layout.add_output(output(2));
        add(&mut layout, 1, false);
        add(&mut layout, 2, true);
        add(&mut layout, 3, false);
        assert!(layout.minimize_window(&3));
        assert!(layout.verify_invariants());
        change(&mut layout);
        assert!(!layout.verify_invariants());
    }
}

#[test]
fn fullscreen_requests_reach_minimized_windows() {
    let mut layout = new_layout();
    layout.add_output(output(1));
    add(&mut layout, 1, false);
    assert!(!layout.set_minimized_fullscreen(&1, true));
    assert!(!layout.set_minimized_maximized(&1, true));
    assert!(layout.minimize_window(&1));
    layout.minimized_windows[0].removed.tile.floating_window_size = Some(Size { w: 7, h: 8 });
    assert!(layout.set_minimized_fullscreen(&1, true));
    let window = &layout.minimized_windows[0].removed.tile.window;
    assert_eq!(window.pending_sizing_mode, SizingMode::Fullscreen);
    // The request is neither animated nor part of a transaction.
    assert_eq!(
        window.requested_size,
        Some(SizeRequest {
            size: Size { w: 100, h: 200 },
            animate: false,
            transaction: None
        })
    );
    // Underneath fullscreen, maximization is only remembered.
    assert!(layout.set_minimized_maximized(&1, true));
    assert_eq!(mode(&layout, 1), SizingMode::Fullscreen);
    assert!(layout.minimized_windows[0].maximized);
    assert!(layout.set_minimized_fullscreen(&1, false));
    assert_eq!(mode(&layout, 1), SizingMode::Maximized);
    assert!(layout.set_minimized_maximized(&1, false));
    let window = &layout.minimized_windows[0].removed.tile.window;
    assert_eq!(window.pending_sizing_mode, SizingMode::Normal);
    // Back to the floating size.
    assert_eq!(
        window.requested_size.map(|request| request.size),
        Some(Size { w: 7, h: 8 })
    );
}

#[test]
fn a_request_for_the_current_mode_asks_for_nothing() {
    let mut layout = new_layout();
    layout.add_output(output(1));
    add(&mut layout, 1, false);
    assert!(layout.minimize_window(&1));
    assert!(layout.set_minimized_fullscreen(&1, false));
    assert_eq!(
        layout.minimized_windows[0]
            .removed
            .tile
            .window
            .requested_size,
        None
    );
}

#[test]
fn windowed_fullscreen_is_left_first() {
    let mut layout = new_layout();
    layout.add_output(output(1));
    add(&mut layout, 1, false);
    assert!(layout.minimize_window(&1));
    let window = &mut layout.minimized_windows[0].removed.tile.window;
    window.pending_windowed_fullscreen = true;
    assert!(layout.set_minimized_fullscreen(&1, false));
    let window = &layout.minimized_windows[0].removed.tile.window;
    assert!(!window.pending_windowed_fullscreen);
    assert_eq!(window.requested_size, None);
    let window = &mut layout.minimized_windows[0].removed.tile.window;
    window.pending_windowed_fullscreen = true;
    assert!(layout.set_minimized_fullscreen(&1, true));
    let window = &layout.minimized_windows[0].removed.tile.window;
    assert!(!window.pending_windowed_fullscreen);
    assert_eq!(window.pending_sizing_mode, SizingMode::Fullscreen);
}

#[test]
fn maximization_underneath_fullscreen_survives() {
    let mut layout = new_layout();
    layout.add_output(output(1));
    add(&mut layout, 1, false);
    layout.set_maximized(&1, true);
    layout.set_fullscreen(&1, true);
    assert!(layout.minimize_window(&1));
    assert!(layout.minimized_windows[0].maximized);
    assert_eq!(mode(&layout, 1), SizingMode::Fullscreen);
    assert_eq!(
        layout.restore_window(None, None, ActivateWindow::Yes),
        Some(1)
    );
    assert_eq!(mode(&layout, 1), SizingMode::Fullscreen);
    layout.set_fullscreen(&1, false);
    assert_eq!(mode(&layout, 1), SizingMode::Maximized);
    layout.set_maximized(&1, false);
    assert_eq!(mode(&layout, 1), SizingMode::Normal);
}

#[test]
fn maximized_windows_leave_a_shared_column() {
    let mut layout = new_layout();
    layout.add_output(output(1));
    add(&mut layout, 1, false);
    add(&mut layout, 2, false);
    let shared = &mut layout.monitors[0].workspaces[0];
    shared.active_column_idx = 0;
    let right = shared.columns.remove(1);
    shared.columns[0].tiles.extend(right.tiles);
    layout.set_maximized(&2, true);
    assert_eq!(column_ids(workspace(&layout)), vec![vec![1], vec![2]]);
    assert_eq!(mode(&layout, 1), SizingMode::Normal);
    assert_eq!(mode(&layout, 2), SizingMode::Maximized);
}

#[test]
fn requests_for_unknown_windows_are_ignored() {
    let mut layout = new_layout();
    layout.add_output(output(1));
    add(&mut layout, 1, false);
    layout.set_fullscreen(&9, true);
    layout.set_maximized(&9, true);
    assert_eq!(mode(&layout, 1), SizingMode::Normal);
}

#[test]
fn workspaces_move_with_their_outputs() {
    let mut layout = new_layout();
    layout.add_output(output(1));
    layout.add_output(output(2));
    add(&mut layout, 1, false);
    layout.active_monitor_idx = 1;
    add(&mut layout, 2, false);
    assert!(layout.minimize_window(&2));
    add(&mut layout, 3, true);
    layout.remove_output(&1);
    assert_eq!(layout.monitors.len(), 1);
    assert_eq!(layout.active_monitor_idx, 0);
    let ids: Vec<Vec<Vec<WindowId>>> = layout.monitors[0]
        .workspaces
        .iter()
        .map(column_ids)
        .collect();
    assert_eq!(ids, vec![vec![], vec![vec![1]], vec![]]);
    layout.remove_output(&2);
    assert!(layout.monitors.is_empty());
    assert_eq!(layout.orphans.len(), 2);
    assert_eq!(layout.focus(), None);
    assert_eq!(queue(&layout), vec![2]);
    // Windows can still be opened, and go to the first workspace.
    add(&mut layout, 4, false);
    assert_eq!(column_ids(&layout.orphans[0]), vec![vec![4]]);
    assert!(layout.minimize_window(&1));
    assert_eq!(layout.orphans.len(), 1);
    layout.remove_output(&5);
    layout.add_output(output(6));
    assert!(layout.orphans.is_empty());
    assert_eq!(layout.managed_windows().len(), 4);
    assert_eq!(
        layout.restore_window(Some(&2), Some(&6), ActivateWindow::Yes),
        Some(2)
    );
    assert_eq!(layout.focus(), Some(2));
}

#[test]
fn closed_windows_are_gone_wherever_they_were() {
    let mut layout = new_layout();
    layout.add_output(output(1));
    add(&mut layout, 1, false);
    add(&mut layout, 2, true);
    add(&mut layout, 3, false);
    assert!(layout.minimize_window(&3));
    layout.interactive_move = Some(InteractiveMove {
        removed: new_window(4, true),
        output: 1,
    });
    for (id, floating) in [(1, false), (2, true), (3, false), (4, true)] {
        let removed = layout.remove_window(&id).unwrap();
        assert_eq!(removed.tile.window.id, id);
        assert_eq!(removed.is_floating, floating);
        assert!(!layout.has_managed_window(&id));
    }
    assert!(layout.remove_window(&1).is_none());
    assert!(layout.managed_windows().is_empty());
}

#[test]
fn reconfigured_outputs_are_noted() {
    let mut layout = new_layout();
    layout.add_output(output(1));
    let mut turned = output(1);
    turned.state.transform = Transform::Flipped90;
    assert!(layout.update_output(turned));
    assert_eq!(layout.monitors[0].output, turned);
    assert!(!layout.update_output(output(2)));
}

#[test]
fn places_are_found() {
    let mut layout = new_layout();
    layout.add_output(output(1));
    add(&mut layout, 1, false);
    add(&mut layout, 2, true);
    assert!(matches!(
        workspace(&layout).find_place(&1),
        Some(Place::Tiled { column: 0, row: 0 })
    ));
    assert!(matches!(
        workspace(&layout).find_place(&2),
        Some(Place::Floating { index: 0 })
    ));
    assert!(workspace(&layout).find_place(&3).is_none());
}
