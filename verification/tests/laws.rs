use winland::border::{border_side_rects, BorderColor, BorderOverlayState, BorderStep, BorderUpdate};
use winland::dwindle::{
    build_dwindle_tree, prune_dwindle_tree, serialize_dwindle_tree, DwindleSplit,
};
use winland::engine::LayoutEngine;
use winland::geometry::{MonitorId, MonitorInfo, Point, Rect, TileAssignment, WindowHandle};
use winland::handles::realign_handles;
use winland::layout::{
    scale_length, split_columns_with_gap, split_rows_with_gap, LayoutConfig, LayoutDirection,
    LayoutKind, SplitDirection, WindowParticipation,
};
use winland::monitor_layout::MonitorLayoutState;
use winland::monitors::{
    clamp_rect_to_area, monitor_for_point, monitor_for_rect, nearest_monitor,
    offset_rect_by_cursor_delta, sorted_monitor_ids, translate_rect_to_monitor, widest_monitor,
};
use winland::mouse_drag::{
    handle_mouse_message, is_modifier_drag_candidate, MouseDragEvent, MouseDragEventKind,
    MouseInput, WM_LBUTTONDOWN, WM_LBUTTONUP, WM_MOUSEMOVE,
};
use winland::numeral::{decimal, hexadecimal, parse_number, signed_decimal};
use winland::order::order_by_keys;
use winland::path_name::process_name;
use winland::placement::{next_placement, outer_rect_for_desired_visible_rect};
use winland::rules::{evaluate_window_rules, WindowRule, WindowRuleAction, WindowRuleMatch};
use winland::size::{merge_size_constraints, Size, WindowSizeConstraints};
use winland::smart_split::split_direction_for_point;
use winland::sorted_map::SortedMap;
use winland::text::{blank, chars_of, text_of, trim_chars};
use winland::tile::{tile_windows_with_config, tile_windows_with_state};
use winland::window::{WindowInfo, WindowStyles};
use winland::workspace::{WorkspaceId, WorkspaceManager};

fn handles(list: &[u64]) -> Vec<WindowHandle> {
    list.iter().map(|handle| WindowHandle(*handle)).collect()
}

fn config(kind: LayoutKind, gap: i32) -> LayoutConfig {
    LayoutConfig {
        kind,
        gap,
        ..LayoutConfig::default()
    }
}

fn overlap(a: Rect, b: Rect) -> bool {
    a.left < b.right && b.left < a.right && a.top < b.bottom && b.top < a.bottom
}

fn inside(inner: Rect, outer: Rect) -> bool {
    outer.left <= inner.left
        && outer.top <= inner.top
        && inner.right <= outer.right
        && inner.bottom <= outer.bottom
}

fn assert_apart(area: Rect, tiles: &[TileAssignment]) {
    for (index, tile) in tiles.iter().enumerate() {
        assert!(inside(tile.rect, area));
        for other in &tiles[index + 1..] {
            assert!(!overlap(tile.rect, other.rect));
        }
    }
}

fn monitor(id: u64, rect: Rect) -> MonitorInfo {
    MonitorInfo {
        id: MonitorId(id),
        is_primary: id == 1,
        rect,
        work_area: rect,
    }
}

fn window(handle: u64) -> WindowInfo {
    WindowInfo {
        handle: WindowHandle(handle),
        title: "Editor".to_owned(),
        class_name: "Editor".to_owned(),
        process_id: 42,
        executable_path: None,
        is_visible: true,
        is_minimized: false,
        is_dwm_cloaked: false,
        has_owner: false,
        is_tool_window: false,
        styles: WindowStyles {
            style: 0,
            extended_style: 0,
        },
        rect: Rect::from_size(0, 0, 100, 100),
    }
}

#[test]
fn tiles_of_every_layout_lie_apart_in_the_area() {
    let area = Rect::from_size(10, 20, 1001, 701);
    let windows = handles(&[5, 3, 9, 4]);

    for kind in [
        LayoutKind::MasterStack,
        LayoutKind::Dwindle,
        LayoutKind::VerticalStack,
        LayoutKind::HorizontalStack,
    ] {
        let tiles = tile_windows_with_config(area, &windows, config(kind, 8));

        let placed: Vec<WindowHandle> = tiles.iter().map(|tile| tile.window).collect();
        assert_eq!(placed, windows);
        assert_apart(area, &tiles);
        assert_eq!(LayoutKind::from_name(kind.name()), Some(kind));
    }
    assert_eq!(LayoutKind::from_name("spiral"), None);
}

#[test]
fn rows_and_columns_fill_the_area_but_for_the_gaps() {
    let area = Rect::from_size(0, 0, 100, 100);

    let rows = split_rows_with_gap(area, 3, 5);
    assert_eq!(rows[0].top, 0);
    assert_eq!(rows[1].top, rows[0].bottom + 5);
    assert_eq!(rows[2].top, rows[1].bottom + 5);
    assert_eq!(rows[2].bottom, 100);
    let columns = split_columns_with_gap(area, 4, 0);
    assert_eq!(
        columns.iter().map(|rect| rect.width()).collect::<Vec<_>>(),
        vec![25, 25, 25, 25]
    );
    assert_eq!(scale_length(1001, 50), 500);
}

#[test]
fn laying_out_again_changes_neither_tiles_nor_memory() {
    let area = Rect::from_size(0, 0, 1000, 800);
    let windows = handles(&[1, 2, 3]);
    let mut smart = config(LayoutKind::Dwindle, 4);
    smart.smart_split = true;
    let mut splits = Vec::new();

    let first = tile_windows_with_state(area, &windows, smart, None, Some(&mut splits));
    let remembered = splits.clone();
    let cursor = Some(Point { x: 700, y: 10 });
    let again = tile_windows_with_state(area, &windows, smart, cursor, Some(&mut splits));

    assert_eq!(first, again);
    assert_eq!(splits, remembered);
}

#[test]
fn joining_window_takes_its_tile_from_one_other() {
    let area = Rect::from_size(0, 0, 1000, 800);
    let mut splits = Vec::new();
    let layout = config(LayoutKind::Dwindle, 0);

    let before =
        tile_windows_with_state(area, &handles(&[1, 2]), layout, None, Some(&mut splits));
    let after =
        tile_windows_with_state(area, &handles(&[1, 2, 3]), layout, None, Some(&mut splits));

    assert_eq!(after[0], before[0]);
    assert!(inside(after[1].rect, before[1].rect));
    assert!(inside(after[2].rect, before[1].rect));
    assert!(!overlap(after[1].rect, after[2].rect));
}

#[test]
fn pruned_tree_keeps_the_rest_and_is_remembered() {
    let splits = [
        DwindleSplit {
            target: WindowHandle(1),
            new_window: WindowHandle(2),
            direction: SplitDirection::Right,
        },
        DwindleSplit {
            target: WindowHandle(2),
            new_window: WindowHandle(3),
            direction: SplitDirection::Down,
        },
    ];
    let tree = build_dwindle_tree(WindowHandle(1), &splits);
    let mut remembered = Vec::new();
    serialize_dwindle_tree(&tree, &mut remembered);
    assert_eq!(remembered, splits);

    let pruned = prune_dwindle_tree(tree, &handles(&[3, 1])).unwrap();
    let mut left = Vec::new();
    serialize_dwindle_tree(&pruned, &mut left);
    assert_eq!(
        left,
        vec![DwindleSplit {
            target: WindowHandle(1),
            new_window: WindowHandle(3),
            direction: SplitDirection::Right,
        }]
    );
}

#[test]
fn points_are_drawn_to_the_edge_of_their_triangle() {
    let rect = Rect::from_size(0, 0, 200, 100);

    assert_eq!(
        split_direction_for_point(rect, Point { x: 10, y: 50 }),
        SplitDirection::Left
    );
    assert_eq!(
        split_direction_for_point(rect, Point { x: 190, y: 50 }),
        SplitDirection::Right
    );
    assert_eq!(
        split_direction_for_point(rect, Point { x: 100, y: 5 }),
        SplitDirection::Up
    );
    assert_eq!(
        split_direction_for_point(rect, Point { x: 100, y: 95 }),
        SplitDirection::Down
    );
}

#[test]
fn floating_and_tiling_again_restores_the_layout() {
    let area = Rect::from_size(0, 0, 1000, 800);
    let mut layout = MonitorLayoutState::new(MonitorId(1));
    for handle in [1, 2, 3] {
        layout.insert_window(WindowHandle(handle));
    }
    let before = layout.assignments(area);

    assert_eq!(layout.toggle_floating(WindowHandle(2)), Some(true));
    assert_eq!(
        layout.participation(WindowHandle(2)),
        WindowParticipation::Floating
    );
    assert_eq!(
        layout.participation(WindowHandle(3)),
        WindowParticipation::Tiled
    );
    assert!(layout
        .assignments(area)
        .iter()
        .all(|tile| tile.window != WindowHandle(2)));
    assert_eq!(layout.toggle_floating(WindowHandle(2)), Some(false));

    assert_eq!(layout.assignments(area), before);
}

#[test]
fn focus_and_order_come_back() {
    let mut layout = MonitorLayoutState::new(MonitorId(1));
    for handle in [1, 2, 3] {
        layout.insert_window(WindowHandle(handle));
    }
    layout.focus_window(WindowHandle(3));
    let order = layout.windows().to_vec();

    layout.move_focus(LayoutDirection::Right);
    assert_eq!(layout.focused(), Some(WindowHandle(1)));
    layout.move_focus(LayoutDirection::Left);
    assert_eq!(layout.focused(), Some(WindowHandle(3)));

    layout.swap_focused(LayoutDirection::Left);
    assert_ne!(layout.windows(), order.as_slice());
    layout.swap_focused(LayoutDirection::Right);
    assert_eq!(layout.windows(), order.as_slice());

    layout.insert_window(WindowHandle(4));
    layout.remove_window(WindowHandle(4));
    assert_eq!(layout.windows(), order.as_slice());
    assert_eq!(layout.focused(), Some(WindowHandle(3)));
}

#[test]
fn window_is_on_one_monitor_of_the_engine() {
    let mut engine = LayoutEngine::new();
    engine.insert_window(MonitorId(1), WindowHandle(7));
    engine.insert_window(MonitorId(2), WindowHandle(7));

    assert!(engine.monitor(MonitorId(1)).unwrap().windows().is_empty());
    assert_eq!(
        engine.monitor(MonitorId(2)).unwrap().windows(),
        &[WindowHandle(7)]
    );
}

#[test]
fn normal_settings_stay_as_they_are() {
    let odd = LayoutConfig {
        gap: -3,
        master_ratio_percent: 99,
        ..LayoutConfig::default()
    };
    let normal = odd.normalized();

    assert_eq!(normal.gap, 0);
    assert_eq!(normal.master_ratio_percent, 90);
    assert_eq!(normal.normalized(), normal);
}

#[test]
fn inset_keeps_a_pixel_where_the_rect_was() {
    let rect = Rect::from_size(5, 5, 10, 3);
    let shrunk = rect.inset(100);

    assert!(!shrunk.is_empty());
    assert!(inside(shrunk, rect));
}

#[test]
fn border_sides_lie_around_the_window() {
    let rect = Rect::from_size(100, 100, 50, 40);
    let sides = border_side_rects(rect, 4);

    for (index, side) in sides.iter().enumerate() {
        assert!(!overlap(*side, rect));
        for other in &sides[index + 1..] {
            assert!(!overlap(*side, *other));
        }
    }
    assert_eq!(BorderColor::new(1, 2, 3).colorref(), 0x030201);
}

#[test]
fn overlays_follow_the_updates() {
    let update = BorderUpdate {
        window: WindowHandle(1),
        rect: Rect::from_size(0, 0, 10, 10),
        color: BorderColor::new(1, 2, 3),
        visible: true,
    };
    let mut overlays = BorderOverlayState::new();

    assert!(!overlays.has_overlay(WindowHandle(1)));
    assert!(overlays.needs_overlay(&update));
    let nothing = BorderUpdate {
        rect: Rect::from_size(0, 0, 0, 10),
        ..update
    };
    assert!(!overlays.needs_overlay(&nothing));
    overlays.created(WindowHandle(1));
    assert!(overlays.has_overlay(WindowHandle(1)));
    assert!(!overlays.needs_overlay(&update));
    let first: BorderStep = overlays.update(update, 2);
    let second: BorderStep = overlays.update(update, 2);
    assert_ne!(first, second);
    assert!(overlays.stale_windows(&[update]).is_empty());
    assert_eq!(overlays.stale_windows(&[]), handles(&[1]));
    assert!(overlays.remove(WindowHandle(1)));
    assert!(!overlays.remove(WindowHandle(1)));
}

#[test]
fn every_place_belongs_to_a_monitor() {
    let monitors = [
        monitor(1, Rect::from_size(0, 0, 100, 100)),
        monitor(2, Rect::from_size(100, 0, 100, 100)),
    ];

    let mostly_right = Rect::from_size(90, 10, 60, 20);
    assert_eq!(
        widest_monitor(mostly_right, &monitors).unwrap().id,
        MonitorId(2)
    );
    assert_eq!(
        monitor_for_rect(mostly_right, &monitors),
        Some(MonitorId(2))
    );
    let far = Rect::from_size(-900, 10, 5, 5);
    assert!(widest_monitor(far, &monitors).is_none());
    assert_eq!(monitor_for_rect(far, &monitors), Some(MonitorId(1)));
    let point = Point { x: 5000, y: 5 };
    assert_eq!(
        nearest_monitor(point, &monitors).unwrap().id,
        MonitorId(2)
    );
    assert_eq!(monitor_for_point(point, &monitors), Some(MonitorId(2)));
    assert_eq!(monitor_for_point(point, &[]), None);
}

#[test]
fn monitors_are_arranged_from_left_to_right() {
    let monitors = [
        monitor(1, Rect::from_size(100, 0, 100, 100)),
        monitor(2, Rect::from_size(0, 50, 100, 100)),
        monitor(3, Rect::from_size(0, 0, 100, 50)),
    ];

    assert_eq!(
        sorted_monitor_ids(&monitors),
        vec![MonitorId(3), MonitorId(2), MonitorId(1)]
    );
}

#[test]
fn rects_move_into_areas_and_come_back() {
    let area = Rect::from_size(0, 0, 500, 400);
    let outside = Rect::from_size(450, 390, 100, 50);
    let moved = clamp_rect_to_area(outside, area);
    assert!(inside(moved, area));
    assert_eq!((moved.width(), moved.height()), (100, 50));

    let start = Point { x: 10, y: 10 };
    let end = Point { x: 60, y: -20 };
    let dragged = offset_rect_by_cursor_delta(moved, start, end);
    assert_eq!(dragged.left, moved.left + 50);
    assert_eq!(offset_rect_by_cursor_delta(dragged, end, start), moved);

    let from = monitor(1, Rect::from_size(0, 0, 500, 400));
    let to = monitor(2, Rect::from_size(500, 0, 500, 400));
    let translated = translate_rect_to_monitor(moved, Some(&from), &to);
    assert!(inside(translated, to.work_area));
}

#[test]
fn drag_keeps_its_window_to_the_end() {
    let mut drag = None;
    let input = |message: u32, x: i32, now: u64, target: Option<u64>| MouseInput {
        message,
        cursor: Point { x, y: 0 },
        now,
        paused: false,
        modifiers_held: true,
        target: target.map(WindowHandle),
    };

    let down = handle_mouse_message(&mut drag, input(WM_LBUTTONDOWN, 0, 0, Some(1)));
    assert!(down.swallow);
    assert_eq!(
        down.report,
        Some(MouseDragEvent {
            kind: MouseDragEventKind::Started,
            window: WindowHandle(1),
            cursor: Point { x: 0, y: 0 },
        })
    );
    let moved = handle_mouse_message(&mut drag, input(WM_MOUSEMOVE, 5, 20_000, Some(2)));
    assert_eq!(moved.report.unwrap().window, WindowHandle(1));
    let soon = handle_mouse_message(&mut drag, input(WM_MOUSEMOVE, 6, 21_000, Some(2)));
    assert_eq!(soon.report, None);
    let up = handle_mouse_message(&mut drag, input(WM_LBUTTONUP, 7, 30_000, None));
    assert_eq!(
        up.report,
        Some(MouseDragEvent {
            kind: MouseDragEventKind::Ended,
            window: WindowHandle(1),
            cursor: Point { x: 6, y: 0 },
        })
    );
    assert_eq!(drag, None);
    let rect = Some(Rect::from_size(0, 0, 10, 10));
    assert!(is_modifier_drag_candidate(true, false, rect, Some("Editor")));
    assert!(!is_modifier_drag_candidate(false, false, rect, Some("Editor")));
}

#[test]
fn written_numbers_come_back() {
    for number in [0, 7, 10, 255, u64::MAX] {
        assert_eq!(
            parse_number(&chars_of(&decimal(number)), 10, u64::MAX),
            Some(number)
        );
        assert_eq!(
            parse_number(&chars_of(&hexadecimal(number)), 16, u64::MAX),
            Some(number)
        );
    }
    assert_eq!(parse_number(&chars_of("256"), 10, 255), None);
    assert_eq!(parse_number(&chars_of("1x"), 10, 255), None);
    assert_eq!(parse_number(&[], 10, 255), None);
    assert_eq!(signed_decimal(-42), "-42");
    assert_eq!(WindowHandle(255).to_text(), "0xFF");
}

#[test]
fn equal_keys_keep_their_order() {
    assert_eq!(order_by_keys(&[3, 1, 3, 1]), vec![1, 3, 0, 2]);
}

#[test]
fn placement_shows_the_desired_rect() {
    let outer = Rect::from_size(0, 0, 120, 110);
    let visible = Rect::from_size(8, 0, 104, 102);
    let desired = Rect::from_size(200, 50, 300, 200);

    let target = outer_rect_for_desired_visible_rect(outer, visible, desired);
    assert_eq!(target.left, 192);
    assert_eq!(target.bottom, 258);

    assert_eq!(next_placement(0, target, desired, Some(desired)), None);
    assert_eq!(next_placement(0, target, desired, None), None);
    let off = Rect::from_size(203, 50, 300, 200);
    let corrected = next_placement(0, target, desired, Some(off)).unwrap();
    assert_eq!(corrected.left, target.left - 3);
}

#[test]
fn merged_limits_lose_no_least_size() {
    let merged = merge_size_constraints(
        WindowSizeConstraints::fixed(300, 200),
        WindowSizeConstraints::minimum(400, 100),
    );

    assert_eq!(merged.min, Size::new(400, 200));
    assert_eq!(merged.max, Some(Size::new(400, 200)));
    assert_eq!(merged.normalized(), merged);
}

#[test]
fn blank_texts_trim_to_nothing() {
    assert!(blank(" \t\n"));
    assert!(trim_chars(&chars_of(" \t\n")).is_empty());
    assert!(!blank(" a "));
    assert_eq!(text_of(&trim_chars(&chars_of(" a b "))), "a b");
}

#[test]
fn later_rule_overrides_what_it_sets() {
    let rule = |name: &str, float: Option<bool>, manage: Option<bool>| WindowRule {
        name: name.to_owned(),
        matcher: WindowRuleMatch::default(),
        action: WindowRuleAction {
            float,
            manage,
            ..WindowRuleAction::default()
        },
    };
    let rules = [
        rule("first", Some(true), Some(true)),
        rule("second", Some(false), None),
    ];

    let decision = evaluate_window_rules(&window(1), &rules);

    assert_eq!(decision.float, Some(false));
    assert_eq!(decision.manage, Some(true));
    assert_eq!(decision.matched_rules, vec!["first", "second"]);
}

#[test]
fn realigned_list_holds_each_window_once() {
    let (list, left_out, added) =
        realign_handles(&handles(&[9, 2, 5]), &handles(&[1, 2, 5]));

    assert_eq!(list, handles(&[2, 5, 1]));
    assert_eq!((left_out, added), (1, 1));
}

#[test]
fn entries_stand_in_ascending_order() {
    let mut map = SortedMap::new();
    map.insert(7, "seven");
    map.insert(2, "two");
    map.insert(7, "SEVEN");

    assert_eq!(map.len(), 2);
    assert_eq!((map.key_at(0), map.key_at(1)), (2, 7));
    assert_eq!(map.get(7), Some(&"SEVEN"));
    assert_eq!(map.remove(2), Some("two"));
    assert!(!map.contains_key(2));
}

#[test]
fn switching_back_shows_what_was_hidden() {
    let mut workspaces = WorkspaceManager::new(3);
    let rect = Rect::from_size(0, 0, 10, 10);
    workspaces.track_window(WindowHandle(1), rect);
    workspaces.track_window(WindowHandle(2), rect);
    workspaces.set_visible_on_all_workspaces(WindowHandle(2), true);
    workspaces.track_window_on_workspace(WindowHandle(3), WorkspaceId(2), rect);

    let there = workspaces.switch_to(WorkspaceId(2));
    let back = workspaces.switch_to(WorkspaceId(1));

    assert_eq!(there.hide, handles(&[1]));
    assert_eq!(there.show.len(), 1);
    assert_eq!(there.show[0].window, WindowHandle(3));
    assert_eq!(back.hide, handles(&[3]));
    assert_eq!(back.show[0].window, WindowHandle(1));
    assert!(workspaces.switch_to(WorkspaceId(1)).is_empty());
}

#[test]
fn managed_window_is_managed_on_workspaces_too() {
    let mut hidden = window(1);
    assert!(hidden.is_manageable());
    assert!(hidden.is_workspace_manageable());
    hidden.is_visible = false;
    assert!(!hidden.is_manageable());
    assert!(hidden.is_workspace_manageable());
    hidden.is_tool_window = true;
    assert!(!hidden.is_workspace_manageable());
}

#[test]
fn remembered_splits_tell_the_windows() {
    let area = Rect::from_size(0, 0, 1000, 800);
    let windows = handles(&[4, 1, 3, 2]);
    let mut splits = vec![
        DwindleSplit {
            target: WindowHandle(3),
            new_window: WindowHandle(9),
            direction: SplitDirection::Right,
        },
        DwindleSplit {
            target: WindowHandle(9),
            new_window: WindowHandle(1),
            direction: SplitDirection::Down,
        },
    ];

    let first = tile_windows_with_state(
        area,
        &windows,
        config(LayoutKind::Dwindle, 4),
        None,
        Some(&mut splits),
    );

    assert_eq!(splits.len(), 3);
    assert!(splits.iter().all(|split| windows.contains(&split.target)));
    let mut told: Vec<u64> = splits.iter().map(|split| split.new_window.0).collect();
    told.push(splits[0].target.0);
    told.sort();
    assert_eq!(told, vec![1, 2, 3, 4]);

    let before = splits.clone();
    let again = tile_windows_with_state(
        area,
        &windows,
        config(LayoutKind::Dwindle, 4),
        Some(Point { x: 900, y: 700 }),
        Some(&mut splits),
    );
    assert_eq!(again, first);
    assert_eq!(splits, before);
}

#[test]
fn file_name_is_the_last_component() {
    let name = |path: &str| process_name(path);
    let found = |text: &str| Some(text.to_owned());

    assert_eq!(name(r"C:\Games\game.exe"), found("game.exe"));
    assert_eq!(name("C:/Games/game.exe"), found("game.exe"));
    assert_eq!(name(r"C:\Games\."), found("Games"));
    assert_eq!(name(r"C:\Games\.."), None);
    assert_eq!(name(r"\\server\share"), None);
    assert_eq!(name(r"\\server\share\game.exe"), found("game.exe"));
    assert_eq!(name(r"\\.\COM42"), None);
}

#[test]
fn verbatim_path_is_split_at_backslashes_only() {
    let name = |path: &str| process_name(path);
    let found = |text: &str| Some(text.to_owned());

    assert_eq!(name(r"\\?\C:\dir\game.exe"), found("game.exe"));
    assert_eq!(name(r"\\?\C:\dir\app/x.exe"), found("app/x.exe"));
    assert_eq!(name(r"\\?\C:\dir\"), found("dir"));
    assert_eq!(name(r"\\?\C:\dir\."), None);
    assert_eq!(name(r"\\?\C:/a/b"), found("a/b"));
    assert_eq!(name(r"\\?\C:game.exe"), None);
    assert_eq!(name(r"\\?\UNC\server\share"), None);
    assert_eq!(name(r"\\?\UNC\server\share\game.exe"), found("game.exe"));
    assert_eq!(name(r"\\?\UNC\server"), None);
    assert_eq!(name(r"\\?\Volume\game.exe"), found("game.exe"));
    assert_eq!(name(r"\\?\game.exe"), None);
    assert_eq!(name(r"\\?\"), None);
    assert_eq!(name("//?/C:/dir/game.exe"), found("game.exe"));
}

#[test]
fn tiles_partition_the_work_area() {
    let area = Rect {
        left: -3,
        top: 2,
        right: 10,
        bottom: 9,
    };
    let kinds = [
        LayoutKind::MasterStack,
        LayoutKind::Dwindle,
        LayoutKind::VerticalStack,
        LayoutKind::HorizontalStack,
    ];
    for kind in kinds {
        for count in [1, 2, 3, 5, 20] {
            let windows: Vec<WindowHandle> = (1..=count).map(WindowHandle).collect();
            let tiles = tile_windows_with_config(area, &windows, config(kind, 0));
            for x in -5..12 {
                for y in 0..11 {
                    let point = Point { x, y };
                    let covering = tiles
                        .iter()
                        .filter(|tile| tile.rect.contains(point))
                        .count();
                    assert_eq!(covering, usize::from(area.contains(point)));
                }
            }
        }
    }
}

#[test]
fn moving_and_removing_leave_the_other_windows() {
    let mut engine = LayoutEngine::new();
    for (monitor, window) in [(1, 10), (1, 11), (1, 12), (2, 20), (2, 21)] {
        engine.insert_window(MonitorId(monitor), WindowHandle(window));
    }
    let on = |engine: &LayoutEngine, monitor: u64| -> Vec<WindowHandle> {
        engine
            .monitor(MonitorId(monitor))
            .map(|state| state.windows().to_vec())
            .unwrap_or_default()
    };

    assert!(engine.move_window_to_monitor(MonitorId(2), WindowHandle(11)));
    assert_eq!(on(&engine, 1), handles(&[10, 12]));
    assert_eq!(on(&engine, 2), handles(&[20, 21, 11]));
    assert!(!engine.move_window_to_monitor(MonitorId(2), WindowHandle(20)));
    assert_eq!(on(&engine, 2), handles(&[20, 21, 11]));
    assert!(engine.move_window_to_monitor(MonitorId(3), WindowHandle(12)));
    assert_eq!(on(&engine, 1), handles(&[10]));
    assert_eq!(on(&engine, 3), handles(&[12]));
    assert!(engine.remove_window(WindowHandle(21)));
    assert_eq!(on(&engine, 2), handles(&[20, 11]));
    assert!(!engine.remove_window(WindowHandle(21)));
}
