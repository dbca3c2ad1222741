use std::rc::Rc;

use window_minimization::layout::Layout;
use window_minimization::monitor::Monitor;
use window_minimization::tile::{RemovedTile, Tile};
use window_minimization::types::{
    ActivateWindow, Clock, ColumnDisplay, Host, MinimizeEffect, Options, Output, OutputState, Size,
    SizingMode, Transform, WindowId, WorkspaceId,
};
use window_minimization::window::Window;
use window_minimization::workspace::{Place, Workspace};

struct TestHost;

impl Host for TestHost {
    type Handle = Rc<u64>;
    type Rect = [f64; 4];
    type Extent = (f64, f64);
    type Position = (f64, f64);
    type Center = (f64, f64);
    type Offset = (f64, f64);
    type Width = i32;
    type Contents = String;
    type Image = String;
}

fn new_layout() -> Layout<TestHost> {
    Layout::new(
        Clock {
            now: 0,
            complete_instantly: false,
        },
        Options {
            window_minimize_duration: 280_000_000,
            window_minimize_effect: MinimizeEffect::Scale,
        },
    )
}

fn output(id: u64) -> Output {
    Output {
        id,
        state: OutputState {
            mode: Size { w: 1280, h: 720 },
            scale: 1_f64.to_bits(),
            transform: Transform::Normal,
        },
    }
}

fn new_tile(id: WindowId) -> Tile<TestHost> {
    Tile {
        window: Window {
            id,
            surface: id + 1000,
            handle: Rc::new(id),
            size: Size { w: 100, h: 200 },
            requested_size: None,
            pending_sizing_mode: SizingMode::Normal,
            pending_windowed_fullscreen: false,
            activated: true,
            active_in_column: true,
            floating: false,
            minimized: false,
            interactive_resize: None,
            configure_due: false,
        },
        tile_size: (100., 200.),
        view_pos: None,
        floating_center: Some((0.5, 0.5)),
        natural_width: 100,
        floating_window_size: None,
        restore_to_floating: false,
        minimize_animation_hidden: false,
        interactive_move_offset: None,
        open_animation: None,
        resize_animation: None,
        move_x_animation: None,
        move_y_animation: None,
        alpha_animation: None,
        unmap_snapshot: None,
    }
}

fn add(layout: &mut Layout<TestHost>, id: WindowId, floating: bool) {
    let mut tile = new_tile(id);
    tile.window.floating = floating;
    if floating {
        tile.floating_window_size = Some(tile.window.size);
    }
    layout.add_window(
        RemovedTile {
            tile,
            width: 100,
            is_full_width: false,
            is_floating: floating,
        },
        ActivateWindow::Yes,
    );
}

fn active_monitor(layout: &Layout<TestHost>) -> &Monitor<TestHost> {
    &layout.monitors[layout.active_monitor_idx]
}

fn active_workspace(layout: &Layout<TestHost>) -> &Workspace<TestHost> {
    let monitor = active_monitor(layout);
    &monitor.workspaces[monitor.active_workspace_idx]
}

fn switch_workspace_down(layout: &mut Layout<TestHost>) {
    let monitor = &mut layout.monitors[layout.active_monitor_idx];
    if monitor.active_workspace_idx + 1 < monitor.workspaces.len() {
        monitor.active_workspace_idx += 1;
    }
}

fn is_floating(workspace: &Workspace<TestHost>, id: WindowId) -> bool {
    matches!(workspace.find_place(&id), Some(Place::Floating { .. }))
}

fn focused(layout: &Layout<TestHost>) -> &Window<TestHost> {
    let id = layout.focus().unwrap();
    layout
        .managed_windows()
        .into_iter()
        .find(|(_, window)| window.id == id)
        .unwrap()
        .1
}

/// Windows in workspaces, and the one that the pointer holds.
fn windows(layout: &Layout<TestHost>) -> Vec<WindowId> {
    layout
        .managed_windows()
        .into_iter()
        .map(|(_, window)| window.id)
        .filter(|id| layout.has_window(id))
        .collect()
}

fn floating_geometry(layout: &Layout<TestHost>, id: WindowId) -> ((f64, f64), (f64, f64)) {
    let mut geometry = None;
    layout.with_managed_windows(|window, _, _, layout| {
        if window.id == id {
            let position = layout.tile_pos_in_workspace_view.unwrap();
            geometry = Some((position, layout.tile_size));
        }
    });
    geometry.unwrap()
}

/// The logical size of an output, all of which is available to windows.
fn working_area(output: &Output) -> (f64, f64) {
    let scale = f64::from_bits(output.state.scale);
    let mode = output.state.mode;
    (f64::from(mode.w) / scale, f64::from(mode.h) / scale)
}

/// Puts every floating window that has no position yet where its center says.
fn place_floating_windows(layout: &mut Layout<TestHost>) {
    let mut placed = Vec::new();
    for monitor in &layout.monitors {
        let area = working_area(&monitor.output);
        for tile in monitor.workspaces.iter().flat_map(|ws| &ws.floating) {
            if tile.view_pos.is_none() {
                let center = tile.floating_center.unwrap();
                let along = |center: f64, area: f64, size: f64| {
                    ((center * area - size / 2.) * 1e6).round() / 1e6
                };
                let position = (
                    along(center.0, area.0, tile.tile_size.0),
                    along(center.1, area.1, tile.tile_size.1),
                );
                placed.push((tile.window.id, position, center));
            }
        }
    }
    for (id, position, center) in placed {
        assert!(layout.set_floating_position(&id, position, center));
    }
}

fn move_floating_window(layout: &mut Layout<TestHost>, id: WindowId, x: f64, y: f64) {
    let area = working_area(&active_monitor(layout).output);
    let (_, size) = floating_geometry(layout, id);
    let center = ((x + size.0 / 2.) / area.0, (y + size.1 / 2.) / area.1);
    assert!(layout.set_floating_position(&id, (x, y), center));
}

fn settle(layout: &mut Layout<TestHost>) {
    layout.with_managed_windows_mut(|window, _| {
        window.configure_due = false;
        if let Some(request) = window.requested_size.take() {
            window.size = request.size;
        }
    });
    place_floating_windows(layout);
    layout.clock.complete_instantly = true;
    layout.advance_minimize_animations(&vec![]);
    layout.clock.complete_instantly = false;
    assert!(layout.verify_invariants());
}

#[test]
fn minimizes_single_window_without_unmapping_or_recreating_it() {
    let mut layout = new_layout();
    layout.add_output(output(1));
    add(&mut layout, 1, false);
    settle(&mut layout);
    let window = focused(&layout).handle.clone();
    assert!(layout.minimize_window(&1));
    assert!(!layout.has_window(&1));
    assert!(layout.has_managed_window(&1));
    assert_eq!(windows(&layout).len(), 0);
    assert!(layout.focus().is_none());
    let calls = layout.with_managed_windows(|window, output, workspace, geometry| {
        assert_eq!(window.id, 1);
        assert!(output.is_none());
        assert!(workspace.is_none());
        assert!(geometry.pos_in_scrolling_layout.is_none());
        assert!(geometry.tile_pos_in_workspace_view.is_none());
        assert!(geometry.tile_size.0.is_finite());
        assert!(geometry.tile_size.1.is_finite());
    });
    assert_eq!(calls.len(), 1);
    assert_eq!(
        layout.restore_window(None, None, ActivateWindow::Yes),
        Some(1)
    );
    assert!(Rc::ptr_eq(&window, &focused(&layout).handle));
    assert_eq!(layout.managed_windows().len(), 1);
    settle(&mut layout);
}

#[test]
fn minimization_order_is_stable_and_close_removes_queue_entries() {
    let mut layout = new_layout();
    layout.add_output(output(1));
    add(&mut layout, 1, false);
    add(&mut layout, 2, false);
    add(&mut layout, 3, true);
    assert!(layout.minimize_window(&1));
    assert!(layout.minimize_window(&2));
    assert!(!layout.minimize_window(&1));
    assert!(!layout.minimize_window(&99));
    assert_eq!(
        layout.restore_window(None, None, ActivateWindow::No),
        Some(2)
    );
    assert_eq!(
        layout.restore_window(Some(&2), None, ActivateWindow::Yes),
        None
    );
    assert!(layout.minimize_window(&3));
    assert!(layout.remove_window(&3).is_some());
    assert_eq!(
        layout.restore_window(Some(&3), None, ActivateWindow::Yes),
        None
    );
    assert_eq!(
        layout.restore_window(None, None, ActivateWindow::Yes),
        Some(1)
    );
    assert_eq!(layout.restore_window(None, None, ActivateWindow::Yes), None);
    assert_eq!(layout.managed_windows().len(), 2);
    settle(&mut layout);
}

#[test]
fn tiled_restore_uses_current_workspace_and_new_column() {
    let mut layout = new_layout();
    layout.add_output(output(1));
    add(&mut layout, 1, false);
    add(&mut layout, 2, false);
    add(&mut layout, 3, false);
    settle(&mut layout);
    let original_workspace = active_workspace(&layout).id;
    // Focus the second window.
    layout.monitors[0].workspaces[0].active_column_idx = 1;
    assert_eq!(layout.focus(), Some(2));
    assert!(layout.minimize_window(&1));
    assert_eq!(layout.focus(), Some(2));
    switch_workspace_down(&mut layout);
    let target = active_workspace(&layout).id;
    assert_ne!(target, original_workspace);
    assert_eq!(
        layout.restore_window(Some(&1), None, ActivateWindow::Yes),
        Some(1)
    );
    assert!(active_workspace(&layout).has_window(&1));
    let mut ids: Vec<Option<WorkspaceId>> = Vec::new();
    layout.with_managed_windows(|window, _, workspace, _| {
        if window.id == 1 {
            ids.push(workspace);
        }
    });
    assert_eq!(ids, vec![Some(target)]);
    settle(&mut layout);
}

#[test]
fn multiwindow_and_tabbed_columns_do_not_keep_placeholders() {
    for tabbed in [false, true] {
        let mut layout = new_layout();
        layout.add_output(output(1));
        add(&mut layout, 1, false);
        add(&mut layout, 2, false);
        // Focus the column on the left and let it consume its neighbor.
        let workspace = &mut layout.monitors[0].workspaces[0];
        workspace.active_column_idx = 0;
        let right = workspace.columns.remove(1);
        workspace.columns[0].tiles.extend(right.tiles);
        if tabbed {
            workspace.columns[0].display = ColumnDisplay::Tabbed;
        }
        let initial_columns = active_workspace(&layout).columns.len();
        assert_eq!(initial_columns, 1);
        assert!(layout.minimize_window(&1));
        assert_eq!(active_workspace(&layout).columns.len(), 1);
        assert!(layout.minimize_window(&2));
        assert_eq!(active_workspace(&layout).columns.len(), 0);
        assert_eq!(
            layout.restore_window(None, None, ActivateWindow::Yes),
            Some(2)
        );
        assert_eq!(
            layout.restore_window(None, None, ActivateWindow::Yes),
            Some(1)
        );
        assert_eq!(active_workspace(&layout).columns.len(), 2);
        settle(&mut layout);
    }
}

#[test]
fn minimized_last_window_does_not_keep_an_old_workspace_alive() {
    let mut layout = new_layout();
    layout.add_output(output(1));
    add(&mut layout, 1, false);
    let old = active_workspace(&layout).id;
    switch_workspace_down(&mut layout);
    assert!(layout.minimize_window(&1));
    settle(&mut layout);
    assert!(layout.monitors[0].workspaces.iter().all(|ws| ws.id != old));
    assert_eq!(
        layout.restore_window(None, None, ActivateWindow::Yes),
        Some(1)
    );
    assert_ne!(active_workspace(&layout).id, old);
    settle(&mut layout);
}

#[test]
fn missing_output_and_no_outputs_preserve_minimized_windows() {
    let mut layout = new_layout();
    layout.add_output(output(1));
    layout.add_output(output(2));
    add(&mut layout, 1, false);
    add(&mut layout, 2, true);
    let output2 = 2;
    assert!(layout.minimize_window(&1));
    assert!(layout.minimize_window(&2));
    layout.remove_output(&output2);
    assert_eq!(
        layout.restore_window(None, Some(&output2), ActivateWindow::Yes),
        None
    );
    layout.remove_output(&1);
    assert_eq!(layout.restore_window(None, None, ActivateWindow::Yes), None);
    assert_eq!(layout.managed_windows().len(), 2);
    assert!(layout.is_minimized(&1));
    assert!(layout.is_minimized(&2));
    layout.remove_window(&1);
    assert!(!layout.has_managed_window(&1));
    layout.add_output(output(3));
    assert_eq!(
        layout.restore_window(None, None, ActivateWindow::Yes),
        Some(2)
    );
    settle(&mut layout);
}

#[test]
fn floating_same_working_area_restores_size_and_position() {
    let mut layout = new_layout();
    let mut scaled = output(1);
    scaled.state.scale = 1.25_f64.to_bits();
    layout.add_output(scaled);
    add(&mut layout, 1, true);
    settle(&mut layout);
    assert_ne!(floating_geometry(&layout, 1).0, (113., 79.));
    move_floating_window(&mut layout, 1, 113., 79.);
    settle(&mut layout);
    let before = floating_geometry(&layout, 1);
    assert_eq!(before, ((113., 79.), (100., 200.)));
    assert!(layout.minimize_window(&1));
    switch_workspace_down(&mut layout);
    assert_eq!(
        layout.restore_window(None, None, ActivateWindow::Yes),
        Some(1)
    );
    settle(&mut layout);
    let after = floating_geometry(&layout, 1);
    assert_eq!(after, before);
    assert!(is_floating(active_workspace(&layout), 1));
}

#[test]
fn fullscreen_maximized_floating_window_preserves_normal_state() {
    let mut layout = new_layout();
    layout.add_output(output(1));
    add(&mut layout, 1, true);
    settle(&mut layout);
    let before = floating_geometry(&layout, 1);
    layout.set_maximized(&1, true);
    layout.set_fullscreen(&1, true);
    settle(&mut layout);
    assert!(layout.minimize_window(&1));
    assert_eq!(
        layout.restore_window(None, None, ActivateWindow::Yes),
        Some(1)
    );
    settle(&mut layout);
    assert!(focused(&layout).pending_sizing_mode.is_fullscreen());
    layout.set_fullscreen(&1, false);
    assert!(focused(&layout).pending_sizing_mode.is_maximized());
    layout.set_maximized(&1, false);
    settle(&mut layout);
    assert!(is_floating(active_workspace(&layout), 1));
    assert_eq!(floating_geometry(&layout, 1), before);
    assert_eq!(focused(&layout).size, Size { w: 100, h: 200 });
}

#[test]
fn hidden_commits_and_sizing_requests_survive_restore() {
    let mut layout = new_layout();
    layout.add_output(output(1));
    add(&mut layout, 1, false);
    assert!(layout.minimize_window(&1));
    layout.set_fullscreen(&1, true);
    settle(&mut layout);
    assert!(layout.managed_windows()[0]
        .1
        .pending_sizing_mode
        .is_fullscreen());
    layout.set_maximized(&1, true);
    layout.set_fullscreen(&1, false);
    settle(&mut layout);
    assert_eq!(
        layout.restore_window(None, None, ActivateWindow::Yes),
        Some(1)
    );
    settle(&mut layout);
    assert!(focused(&layout).pending_sizing_mode.is_maximized());
}

#[test]
fn foreign_toplevel_unminimize_does_not_activate_and_activate_restores() {
    let mut layout = new_layout();
    layout.add_output(output(1));
    let (id, second_id) = (1, 2);
    add(&mut layout, id, false);
    add(&mut layout, second_id, false);
    assert!(layout.minimize_window(&id));
    assert!(layout.is_minimized(&id));
    // Unminimizing alone.
    assert_eq!(
        layout.restore_window(Some(&id), None, ActivateWindow::No),
        Some(id)
    );
    assert!(!layout.is_minimized(&id));
    assert_eq!(layout.focus(), Some(second_id));
    assert!(layout.minimize_window(&id));
    // Explicit activation.
    assert_eq!(
        layout.restore_window(Some(&id), None, ActivateWindow::Yes),
        Some(id)
    );
    assert!(!layout.is_minimized(&id));
    assert_eq!(layout.focus(), Some(id));
    assert_eq!(layout.managed_windows().len(), 2);
}

#[test]
fn minimize_request_targets_its_surface_not_the_focused_window() {
    let mut layout = new_layout();
    layout.add_output(output(1));
    let (first_id, focused_id) = (1, 2);
    add(&mut layout, first_id, false);
    add(&mut layout, focused_id, false);
    let first_surface = 1001;
    let found = layout.find_managed_window_and_output(&first_surface);
    let id = found.unwrap().0.id;
    assert!(layout.minimize_window(&id));
    assert_eq!(layout.focus(), Some(focused_id));
    assert!(layout.is_minimized(&first_id));
}

#[test]
fn minimized_window_survives_output_removal_and_failed_restore() {
    let mut layout = new_layout();
    layout.add_output(output(1));
    let id = 1;
    add(&mut layout, id, false);
    assert!(layout.minimize_window(&id));
    layout.remove_output(&1);
    assert_eq!(layout.restore_window(None, None, ActivateWindow::Yes), None);
    assert_eq!(layout.managed_windows()[0].1.id, id);
    let mut second = output(2);
    second.state.mode = Size { w: 800, h: 600 };
    layout.add_output(second);
    assert_eq!(
        layout.restore_window(None, None, ActivateWindow::Yes),
        Some(id)
    );
    assert_eq!(windows(&layout), vec![id]);
    assert_eq!(layout.managed_windows().len(), 1);
    assert!(layout.verify_invariants());
}
