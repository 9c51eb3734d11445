use winland::dwindle::DwindleSplit;
use winland::engine::LayoutEngine;
use winland::geometry::{MonitorId, MonitorInfo, Point, Rect, TileAssignment, WindowHandle};
use winland::layout::{
    LayoutConfig, LayoutDirection, LayoutKind, SplitDirection, WindowParticipation,
};
use winland::monitor_layout::MonitorLayoutState;
use winland::rules::{
    evaluate_window_rules, TextMatcher, WindowRule, WindowRuleAction, WindowRuleMatch,
};
use winland::smart_split::split_direction_for_point;
use winland::tile::{tile_windows, tile_windows_with_config, tile_windows_with_state};
use winland::window::{windows_in_monitor, Manageability, WindowInfo, WindowStyles};
use winland::workspace::{
    WorkspaceId, WorkspaceManager, WorkspaceVisibilityChange, WorkspaceWindowState,
};

fn window() -> WindowInfo {
    WindowInfo {
        handle: WindowHandle(1),
        title: "Editor".to_owned(),
        class_name: "ApplicationFrameWindow".to_owned(),
        process_id: 42,
        executable_path: Some(r"C:\Windows\System32\notepad.exe".to_owned()),
        is_visible: true,
        is_minimized: false,
        is_dwm_cloaked: false,
        has_owner: false,
        is_tool_window: false,
        styles: WindowStyles {
            style: 0,
            extended_style: 0,
        },
        rect: Rect {
            left: 10,
            top: 20,
            right: 810,
            bottom: 620,
        },
    }
}

#[test]
fn ordinary_visible_top_level_window_is_manageable() {
    assert_eq!(window().manageable_reason(), Manageability::Manageable);
}

#[test]
fn invisible_windows_are_not_manageable() {
    let mut window = window();
    window.is_visible = false;

    assert_eq!(
        window.manageable_reason(),
        Manageability::Unmanageable("not visible")
    );
}

#[test]
fn workspace_manageable_allows_hidden_windows_but_keeps_other_guards() {
    let mut hidden = window();
    hidden.is_visible = false;

    assert_eq!(
        hidden.workspace_manageable_reason(),
        Manageability::Manageable
    );

    hidden.is_minimized = true;
    assert_eq!(
        hidden.workspace_manageable_reason(),
        Manageability::Unmanageable("minimized")
    );
}

#[test]
fn shell_windows_are_not_manageable() {
    let mut window = window();
    window.class_name = "Shell_TrayWnd".to_owned();

    assert_eq!(
        window.manageable_reason(),
        Manageability::Unmanageable("shell window class")
    );
}

#[test]
fn zero_sized_windows_are_not_manageable() {
    let mut window = window();
    window.rect.right = window.rect.left;

    assert_eq!(
        window.manageable_reason(),
        Manageability::Unmanageable("empty rectangle")
    );
}

#[test]
fn tiling_no_windows_produces_no_assignments() {
    let work_area = Rect::from_size(0, 0, 1920, 1080);

    assert!(tile_windows(work_area, &[]).is_empty());
}

#[test]
fn tiling_one_window_fills_the_work_area() {
    let work_area = Rect::from_size(10, 20, 800, 600);
    let assignments = tile_windows(work_area, &[WindowHandle(1)]);

    assert_eq!(
        assignments,
        vec![TileAssignment {
            window: WindowHandle(1),
            rect: work_area,
        }]
    );
}

#[test]
fn tiling_two_windows_splits_master_and_stack_evenly() {
    let work_area = Rect::from_size(0, 0, 1000, 800);
    let assignments = tile_windows(work_area, &[WindowHandle(1), WindowHandle(2)]);

    assert_eq!(
        assignments,
        vec![
            TileAssignment {
                window: WindowHandle(1),
                rect: Rect::from_size(0, 0, 500, 800),
            },
            TileAssignment {
                window: WindowHandle(2),
                rect: Rect::from_size(500, 0, 500, 800),
            },
        ]
    );
}

#[test]
fn tiling_three_windows_stacks_non_master_windows_vertically() {
    let work_area = Rect::from_size(0, 0, 1000, 801);
    let assignments = tile_windows(
        work_area,
        &[WindowHandle(1), WindowHandle(2), WindowHandle(3)],
    );

    assert_eq!(
        assignments,
        vec![
            TileAssignment {
                window: WindowHandle(1),
                rect: Rect::from_size(0, 0, 500, 801),
            },
            TileAssignment {
                window: WindowHandle(2),
                rect: Rect::from_size(500, 0, 500, 401),
            },
            TileAssignment {
                window: WindowHandle(3),
                rect: Rect::from_size(500, 401, 500, 400),
            },
        ]
    );
}

#[test]
fn vertical_stack_splits_windows_into_rows() {
    let work_area = Rect::from_size(0, 0, 100, 101);
    let assignments = tile_windows_with_config(
        work_area,
        &[WindowHandle(1), WindowHandle(2), WindowHandle(3)],
        LayoutConfig {
            kind: LayoutKind::VerticalStack,
            ..LayoutConfig::default()
        },
    );

    assert_eq!(
        assignments,
        vec![
            TileAssignment {
                window: WindowHandle(1),
                rect: Rect::from_size(0, 0, 100, 34),
            },
            TileAssignment {
                window: WindowHandle(2),
                rect: Rect::from_size(0, 34, 100, 34),
            },
            TileAssignment {
                window: WindowHandle(3),
                rect: Rect::from_size(0, 68, 100, 33),
            },
        ]
    );
}

#[test]
fn horizontal_stack_splits_windows_into_columns() {
    let work_area = Rect::from_size(0, 0, 101, 100);
    let assignments = tile_windows_with_config(
        work_area,
        &[WindowHandle(1), WindowHandle(2), WindowHandle(3)],
        LayoutConfig {
            kind: LayoutKind::HorizontalStack,
            ..LayoutConfig::default()
        },
    );

    assert_eq!(
        assignments,
        vec![
            TileAssignment {
                window: WindowHandle(1),
                rect: Rect::from_size(0, 0, 34, 100),
            },
            TileAssignment {
                window: WindowHandle(2),
                rect: Rect::from_size(34, 0, 34, 100),
            },
            TileAssignment {
                window: WindowHandle(3),
                rect: Rect::from_size(68, 0, 33, 100),
            },
        ]
    );
}

#[test]
fn dwindle_splits_newest_leaf_by_available_shape() {
    let work_area = Rect::from_size(0, 0, 1000, 800);
    let assignments = tile_windows_with_config(
        work_area,
        &[WindowHandle(1), WindowHandle(2), WindowHandle(3)],
        LayoutConfig {
            kind: LayoutKind::Dwindle,
            ..LayoutConfig::default()
        },
    );

    assert_eq!(
        assignments,
        vec![
            TileAssignment {
                window: WindowHandle(1),
                rect: Rect::from_size(0, 0, 500, 800),
            },
            TileAssignment {
                window: WindowHandle(2),
                rect: Rect::from_size(500, 0, 500, 400),
            },
            TileAssignment {
                window: WindowHandle(3),
                rect: Rect::from_size(500, 400, 500, 400),
            },
        ]
    );
}

#[test]
fn smart_split_uses_cursor_triangle_and_preserves_existing_splits() {
    let work_area = Rect::from_size(0, 0, 1000, 800);
    let mut splits = Vec::new();
    let config = LayoutConfig {
        kind: LayoutKind::Dwindle,
        smart_split: true,
        ..LayoutConfig::default()
    };

    let assignments = tile_windows_with_state(
        work_area,
        &[WindowHandle(1), WindowHandle(2)],
        config,
        Some(Point { x: 10, y: 400 }),
        Some(&mut splits),
    );

    assert_eq!(
        splits,
        vec![DwindleSplit {
            target: WindowHandle(1),
            new_window: WindowHandle(2),
            direction: SplitDirection::Left,
        }]
    );
    assert_eq!(
        assignments,
        vec![
            TileAssignment {
                window: WindowHandle(1),
                rect: Rect::from_size(500, 0, 500, 800),
            },
            TileAssignment {
                window: WindowHandle(2),
                rect: Rect::from_size(0, 0, 500, 800),
            },
        ]
    );

    let preserved = tile_windows_with_state(
        work_area,
        &[WindowHandle(1), WindowHandle(2)],
        config,
        Some(Point { x: 990, y: 400 }),
        Some(&mut splits),
    );

    assert_eq!(
        splits,
        vec![DwindleSplit {
            target: WindowHandle(1),
            new_window: WindowHandle(2),
            direction: SplitDirection::Left,
        }]
    );
    assert_eq!(preserved, assignments);
}

#[test]
fn smart_split_reconstructs_missing_history_from_shape_when_many_splits_are_unknown() {
    let work_area = Rect::from_size(0, 0, 1000, 800);
    let mut splits = Vec::new();
    let config = LayoutConfig {
        kind: LayoutKind::Dwindle,
        smart_split: true,
        ..LayoutConfig::default()
    };

    let assignments = tile_windows_with_state(
        work_area,
        &[
            WindowHandle(1),
            WindowHandle(2),
            WindowHandle(3),
            WindowHandle(4),
        ],
        config,
        Some(Point { x: 500, y: 799 }),
        Some(&mut splits),
    );

    assert_eq!(
        splits,
        vec![
            DwindleSplit {
                target: WindowHandle(1),
                new_window: WindowHandle(2),
                direction: SplitDirection::Right,
            },
            DwindleSplit {
                target: WindowHandle(2),
                new_window: WindowHandle(3),
                direction: SplitDirection::Down,
            },
            DwindleSplit {
                target: WindowHandle(3),
                new_window: WindowHandle(4),
                direction: SplitDirection::Right,
            },
        ]
    );
    assert_eq!(
        assignments,
        vec![
            TileAssignment {
                window: WindowHandle(1),
                rect: Rect::from_size(0, 0, 500, 800),
            },
            TileAssignment {
                window: WindowHandle(2),
                rect: Rect::from_size(500, 0, 500, 400),
            },
            TileAssignment {
                window: WindowHandle(3),
                rect: Rect::from_size(500, 400, 250, 400),
            },
            TileAssignment {
                window: WindowHandle(4),
                rect: Rect::from_size(750, 400, 250, 400),
            },
        ]
    );
}

#[test]
fn smart_split_uses_cursor_for_single_new_split_only() {
    let work_area = Rect::from_size(0, 0, 1000, 800);
    let mut splits = vec![DwindleSplit {
        target: WindowHandle(1),
        new_window: WindowHandle(2),
        direction: SplitDirection::Right,
    }];
    let config = LayoutConfig {
        kind: LayoutKind::Dwindle,
        smart_split: true,
        ..LayoutConfig::default()
    };

    let assignments = tile_windows_with_state(
        work_area,
        &[WindowHandle(1), WindowHandle(2), WindowHandle(3)],
        config,
        Some(Point { x: 510, y: 400 }),
        Some(&mut splits),
    );

    assert_eq!(
        splits,
        vec![
            DwindleSplit {
                target: WindowHandle(1),
                new_window: WindowHandle(2),
                direction: SplitDirection::Right,
            },
            DwindleSplit {
                target: WindowHandle(2),
                new_window: WindowHandle(3),
                direction: SplitDirection::Left,
            },
        ]
    );
    assert_eq!(
        assignments,
        vec![
            TileAssignment {
                window: WindowHandle(1),
                rect: Rect::from_size(0, 0, 500, 800),
            },
            TileAssignment {
                window: WindowHandle(2),
                rect: Rect::from_size(750, 0, 250, 800),
            },
            TileAssignment {
                window: WindowHandle(3),
                rect: Rect::from_size(500, 0, 250, 800),
            },
        ]
    );
}

#[test]
fn smart_split_targets_leaf_under_cursor_instead_of_always_newest_leaf() {
    let work_area = Rect::from_size(0, 0, 1000, 800);
    let mut splits = vec![DwindleSplit {
        target: WindowHandle(1),
        new_window: WindowHandle(2),
        direction: SplitDirection::Right,
    }];
    let config = LayoutConfig {
        kind: LayoutKind::Dwindle,
        smart_split: true,
        ..LayoutConfig::default()
    };

    let assignments = tile_windows_with_state(
        work_area,
        &[WindowHandle(1), WindowHandle(2), WindowHandle(3)],
        config,
        Some(Point { x: 10, y: 400 }),
        Some(&mut splits),
    );

    assert_eq!(
        splits,
        vec![
            DwindleSplit {
                target: WindowHandle(1),
                new_window: WindowHandle(2),
                direction: SplitDirection::Right,
            },
            DwindleSplit {
                target: WindowHandle(1),
                new_window: WindowHandle(3),
                direction: SplitDirection::Left,
            },
        ]
    );
    assert_eq!(
        assignments,
        vec![
            TileAssignment {
                window: WindowHandle(1),
                rect: Rect::from_size(250, 0, 250, 800),
            },
            TileAssignment {
                window: WindowHandle(2),
                rect: Rect::from_size(500, 0, 500, 800),
            },
            TileAssignment {
                window: WindowHandle(3),
                rect: Rect::from_size(0, 0, 250, 800),
            },
        ]
    );
}

#[test]
fn dwindle_prunes_missing_leaf_and_expands_remaining_sibling_subtree() {
    let work_area = Rect::from_size(0, 0, 1000, 800);
    let mut splits = vec![
        DwindleSplit {
            target: WindowHandle(1),
            new_window: WindowHandle(2),
            direction: SplitDirection::Down,
        },
        DwindleSplit {
            target: WindowHandle(1),
            new_window: WindowHandle(3),
            direction: SplitDirection::Right,
        },
    ];
    let config = LayoutConfig {
        kind: LayoutKind::Dwindle,
        smart_split: true,
        ..LayoutConfig::default()
    };

    let assignments = tile_windows_with_state(
        work_area,
        &[WindowHandle(1), WindowHandle(3)],
        config,
        Some(Point { x: 500, y: 700 }),
        Some(&mut splits),
    );

    assert_eq!(
        assignments,
        vec![
            TileAssignment {
                window: WindowHandle(1),
                rect: Rect::from_size(0, 0, 500, 800),
            },
            TileAssignment {
                window: WindowHandle(3),
                rect: Rect::from_size(500, 0, 500, 800),
            },
        ]
    );
}

#[test]
fn dwindle_prunes_missing_root_leaf_and_expands_remaining_sibling_subtree() {
    let work_area = Rect::from_size(0, 0, 1000, 800);
    let mut splits = vec![
        DwindleSplit {
            target: WindowHandle(1),
            new_window: WindowHandle(2),
            direction: SplitDirection::Right,
        },
        DwindleSplit {
            target: WindowHandle(2),
            new_window: WindowHandle(3),
            direction: SplitDirection::Down,
        },
    ];
    let config = LayoutConfig {
        kind: LayoutKind::Dwindle,
        smart_split: true,
        ..LayoutConfig::default()
    };

    let assignments = tile_windows_with_state(
        work_area,
        &[WindowHandle(2), WindowHandle(3)],
        config,
        Some(Point { x: 100, y: 400 }),
        Some(&mut splits),
    );

    assert_eq!(
        assignments,
        vec![
            TileAssignment {
                window: WindowHandle(2),
                rect: Rect::from_size(0, 0, 1000, 400),
            },
            TileAssignment {
                window: WindowHandle(3),
                rect: Rect::from_size(0, 400, 1000, 400),
            },
        ]
    );
}

#[test]
fn dwindle_canonicalizes_split_history_after_pruning_dragged_leaf() {
    let work_area = Rect::from_size(0, 0, 1000, 800);
    let mut splits = vec![
        DwindleSplit {
            target: WindowHandle(1),
            new_window: WindowHandle(3),
            direction: SplitDirection::Right,
        },
        DwindleSplit {
            target: WindowHandle(3),
            new_window: WindowHandle(2),
            direction: SplitDirection::Down,
        },
    ];
    let config = LayoutConfig {
        kind: LayoutKind::Dwindle,
        smart_split: true,
        ..LayoutConfig::default()
    };

    let assignments = tile_windows_with_state(
        work_area,
        &[WindowHandle(1), WindowHandle(2)],
        config,
        Some(Point { x: 750, y: 10 }),
        Some(&mut splits),
    );

    assert_eq!(
        assignments,
        vec![
            TileAssignment {
                window: WindowHandle(1),
                rect: Rect::from_size(0, 0, 500, 800),
            },
            TileAssignment {
                window: WindowHandle(2),
                rect: Rect::from_size(500, 0, 500, 800),
            },
        ]
    );
    assert_eq!(
        splits,
        vec![DwindleSplit {
            target: WindowHandle(1),
            new_window: WindowHandle(2),
            direction: SplitDirection::Right,
        }]
    );
}

#[test]
fn smart_split_uses_diagonal_triangle_regions_in_wide_rects() {
    let rect = Rect::from_size(0, 0, 1000, 200);

    assert_eq!(
        split_direction_for_point(rect, Point { x: 250, y: 80 }),
        SplitDirection::Left
    );
    assert_eq!(
        split_direction_for_point(rect, Point { x: 750, y: 80 }),
        SplitDirection::Right
    );
    assert_eq!(
        split_direction_for_point(rect, Point { x: 500, y: 10 }),
        SplitDirection::Up
    );
    assert_eq!(
        split_direction_for_point(rect, Point { x: 500, y: 190 }),
        SplitDirection::Down
    );
}

#[test]
fn smart_split_uses_diagonal_triangle_regions_in_tall_rects() {
    let rect = Rect::from_size(0, 0, 200, 1000);

    assert_eq!(
        split_direction_for_point(rect, Point { x: 80, y: 250 }),
        SplitDirection::Up
    );
    assert_eq!(
        split_direction_for_point(rect, Point { x: 80, y: 750 }),
        SplitDirection::Down
    );
    assert_eq!(
        split_direction_for_point(rect, Point { x: 10, y: 500 }),
        SplitDirection::Left
    );
    assert_eq!(
        split_direction_for_point(rect, Point { x: 190, y: 500 }),
        SplitDirection::Right
    );
}

#[test]
fn smart_split_ignores_cursor_outside_split_target() {
    let work_area = Rect::from_size(0, 0, 1000, 800);
    let mut splits = vec![DwindleSplit {
        target: WindowHandle(1),
        new_window: WindowHandle(2),
        direction: SplitDirection::Right,
    }];
    let config = LayoutConfig {
        kind: LayoutKind::Dwindle,
        smart_split: true,
        ..LayoutConfig::default()
    };

    let assignments = tile_windows_with_state(
        work_area,
        &[WindowHandle(1), WindowHandle(2), WindowHandle(3)],
        config,
        Some(Point { x: 2000, y: 400 }),
        Some(&mut splits),
    );

    assert_eq!(
        splits,
        vec![
            DwindleSplit {
                target: WindowHandle(1),
                new_window: WindowHandle(2),
                direction: SplitDirection::Right,
            },
            DwindleSplit {
                target: WindowHandle(2),
                new_window: WindowHandle(3),
                direction: SplitDirection::Down,
            },
        ]
    );
    assert_eq!(
        assignments,
        vec![
            TileAssignment {
                window: WindowHandle(1),
                rect: Rect::from_size(0, 0, 500, 800),
            },
            TileAssignment {
                window: WindowHandle(2),
                rect: Rect::from_size(500, 0, 500, 400),
            },
            TileAssignment {
                window: WindowHandle(3),
                rect: Rect::from_size(500, 400, 500, 400),
            },
        ]
    );
}

#[test]
fn layout_state_inserts_windows_without_duplicates() {
    let mut layout = MonitorLayoutState::new(MonitorId(1));

    assert!(layout.insert_window(WindowHandle(1)));
    assert!(layout.insert_window(WindowHandle(2)));
    assert!(!layout.insert_window(WindowHandle(1)));

    assert_eq!(layout.windows(), &[WindowHandle(1), WindowHandle(2)]);
    assert_eq!(layout.focused(), Some(WindowHandle(1)));
}

#[test]
fn removing_focused_window_selects_next_window() {
    let mut layout = MonitorLayoutState::new(MonitorId(1));
    layout.insert_window(WindowHandle(1));
    layout.insert_window(WindowHandle(2));
    layout.insert_window(WindowHandle(3));
    assert!(layout.focus_window(WindowHandle(2)));

    assert!(layout.remove_window(WindowHandle(2)));

    assert_eq!(layout.windows(), &[WindowHandle(1), WindowHandle(3)]);
    assert_eq!(layout.focused(), Some(WindowHandle(3)));
}

#[test]
fn focus_movement_wraps_through_layout_order() {
    let mut layout = MonitorLayoutState::new(MonitorId(1));
    layout.insert_window(WindowHandle(1));
    layout.insert_window(WindowHandle(2));
    layout.insert_window(WindowHandle(3));

    assert_eq!(
        layout.move_focus(LayoutDirection::Left),
        Some(WindowHandle(3))
    );
    assert_eq!(
        layout.move_focus(LayoutDirection::Right),
        Some(WindowHandle(1))
    );
    assert_eq!(
        layout.move_focus(LayoutDirection::Down),
        Some(WindowHandle(2))
    );
}

#[test]
fn swapping_focused_window_changes_layout_order() {
    let mut layout = MonitorLayoutState::new(MonitorId(1));
    layout.insert_window(WindowHandle(1));
    layout.insert_window(WindowHandle(2));
    layout.insert_window(WindowHandle(3));
    assert!(layout.focus_window(WindowHandle(2)));

    assert_eq!(
        layout.swap_focused(LayoutDirection::Right),
        Some(WindowHandle(3))
    );

    assert_eq!(
        layout.windows(),
        &[WindowHandle(1), WindowHandle(3), WindowHandle(2)]
    );
    assert_eq!(layout.focused(), Some(WindowHandle(2)));
}

#[test]
fn master_ratio_changes_master_stack_geometry() {
    let mut layout = MonitorLayoutState::new(MonitorId(1));
    layout.insert_window(WindowHandle(1));
    layout.insert_window(WindowHandle(2));
    assert_eq!(layout.adjust_master_ratio(10), 60);

    let assignments = layout.assignments(Rect::from_size(0, 0, 1000, 800));

    assert_eq!(
        assignments,
        vec![
            TileAssignment {
                window: WindowHandle(1),
                rect: Rect::from_size(0, 0, 600, 800),
            },
            TileAssignment {
                window: WindowHandle(2),
                rect: Rect::from_size(600, 0, 400, 800),
            },
        ]
    );
}

#[test]
fn gaps_and_borders_are_geometry_reservations() {
    let mut layout = MonitorLayoutState::with_config(
        MonitorId(1),
        LayoutConfig {
            gap: 10,
            border: 2,
            master_ratio_percent: 50,
            ..LayoutConfig::default()
        },
    );
    layout.insert_window(WindowHandle(1));
    layout.insert_window(WindowHandle(2));

    let assignments = layout.assignments(Rect::from_size(0, 0, 100, 100));

    assert_eq!(
        assignments,
        vec![
            TileAssignment {
                window: WindowHandle(1),
                rect: Rect::from_size(12, 12, 31, 76),
            },
            TileAssignment {
                window: WindowHandle(2),
                rect: Rect::from_size(57, 12, 31, 76),
            },
        ]
    );
}

#[test]
fn floating_windows_are_excluded_from_tiling_assignments() {
    let mut layout = MonitorLayoutState::new(MonitorId(1));
    layout.insert_window(WindowHandle(1));
    layout.insert_window(WindowHandle(2));
    layout.insert_window(WindowHandle(3));

    assert_eq!(layout.toggle_floating(WindowHandle(2)), Some(true));

    let assignments = layout.assignments(Rect::from_size(0, 0, 1000, 800));

    assert_eq!(
        assignments,
        vec![
            TileAssignment {
                window: WindowHandle(1),
                rect: Rect::from_size(0, 0, 500, 800),
            },
            TileAssignment {
                window: WindowHandle(3),
                rect: Rect::from_size(500, 0, 500, 800),
            },
        ]
    );
}

#[test]
fn temporary_floating_windows_are_reabsorbed_after_drag_end() {
    let mut layout = MonitorLayoutState::new(MonitorId(1));
    layout.insert_window(WindowHandle(1));
    layout.insert_window(WindowHandle(2));
    layout.insert_window(WindowHandle(3));

    assert!(layout.set_temporarily_floating(WindowHandle(2)));
    assert_eq!(
        layout.participation(WindowHandle(2)),
        WindowParticipation::TemporarilyFloating
    );

    let during_drag = layout.assignments(Rect::from_size(0, 0, 1000, 800));
    assert_eq!(
        during_drag
            .iter()
            .map(|assignment| assignment.window)
            .collect::<Vec<_>>(),
        vec![WindowHandle(1), WindowHandle(3)]
    );

    assert!(layout.clear_temporary_floating(WindowHandle(2)));
    let after_drag = layout.assignments(Rect::from_size(0, 0, 1000, 800));
    assert_eq!(
        after_drag
            .iter()
            .map(|assignment| assignment.window)
            .collect::<Vec<_>>(),
        vec![WindowHandle(1), WindowHandle(2), WindowHandle(3)]
    );
}

#[test]
fn permanent_floating_is_not_replaced_by_temporary_drag_state() {
    let mut layout = MonitorLayoutState::new(MonitorId(1));
    layout.insert_window(WindowHandle(1));

    assert_eq!(layout.toggle_floating(WindowHandle(1)), Some(true));
    assert!(!layout.set_temporarily_floating(WindowHandle(1)));
    assert_eq!(
        layout.participation(WindowHandle(1)),
        WindowParticipation::Floating
    );
}

#[test]
fn layout_reset_restores_default_geometry_state() {
    let mut layout = MonitorLayoutState::with_config(
        MonitorId(1),
        LayoutConfig {
            gap: 12,
            border: 4,
            master_ratio_percent: 70,
            ..LayoutConfig::default()
        },
    );
    layout.insert_window(WindowHandle(1));
    layout.insert_window(WindowHandle(2));
    assert!(layout.focus_window(WindowHandle(2)));
    layout.toggle_floating(WindowHandle(2));

    layout.reset_layout();

    assert_eq!(layout.config(), LayoutConfig::default());
    assert_eq!(layout.focused(), Some(WindowHandle(1)));
    assert!(!layout.is_floating(WindowHandle(2)));
}

#[test]
fn layout_engine_assigns_multiple_monitors_independently() {
    let monitors = [
        MonitorInfo {
            id: MonitorId(1),
            is_primary: true,
            rect: Rect::from_size(0, 0, 1000, 800),
            work_area: Rect::from_size(0, 0, 1000, 760),
        },
        MonitorInfo {
            id: MonitorId(2),
            is_primary: false,
            rect: Rect::from_size(1000, 0, 800, 600),
            work_area: Rect::from_size(1000, 0, 800, 560),
        },
    ];
    let mut engine = LayoutEngine::new();
    engine.insert_window(MonitorId(1), WindowHandle(1));
    engine.insert_window(MonitorId(1), WindowHandle(2));
    engine.insert_window(MonitorId(2), WindowHandle(3));

    let assignments = engine.assignments(&monitors);

    assert_eq!(
        assignments,
        vec![
            TileAssignment {
                window: WindowHandle(1),
                rect: Rect::from_size(0, 0, 500, 760),
            },
            TileAssignment {
                window: WindowHandle(2),
                rect: Rect::from_size(500, 0, 500, 760),
            },
            TileAssignment {
                window: WindowHandle(3),
                rect: Rect::from_size(1000, 0, 800, 560),
            },
        ]
    );
}

#[test]
fn layout_engine_does_not_reorder_duplicate_monitor_insert() {
    let mut engine = LayoutEngine::new();
    assert!(engine.insert_window(MonitorId(1), WindowHandle(1)));
    assert!(engine.insert_window(MonitorId(1), WindowHandle(2)));

    assert!(!engine.insert_window(MonitorId(1), WindowHandle(1)));

    assert_eq!(
        engine
            .monitor(MonitorId(1))
            .map(MonitorLayoutState::windows),
        Some([WindowHandle(1), WindowHandle(2)].as_slice())
    );
}

#[test]
fn workspace_switch_hides_old_workspace_and_shows_target_workspace() {
    let mut workspaces = WorkspaceManager::new(2);
    workspaces.track_window(WindowHandle(1), Rect::from_size(0, 0, 100, 100));
    workspaces.track_window_on_workspace(
        WindowHandle(2),
        WorkspaceId(2),
        Rect::from_size(200, 0, 100, 100),
    );

    let plan = workspaces.switch_to(WorkspaceId(2));

    assert_eq!(workspaces.active_workspace(), WorkspaceId(2));
    assert_eq!(plan.from, WorkspaceId(1));
    assert_eq!(plan.to, WorkspaceId(2));
    assert_eq!(plan.hide, vec![WindowHandle(1)]);
    assert_eq!(
        plan.show,
        vec![WorkspaceVisibilityChange {
            window: WindowHandle(2),
            restore_rect: Some(Rect::from_size(200, 0, 100, 100)),
        }]
    );
}

#[test]
fn workspace_state_survives_create_destroy_style_updates() {
    let mut workspaces = WorkspaceManager::new(2);
    assert!(workspaces.track_window(WindowHandle(1), Rect::from_size(0, 0, 100, 100)));
    assert!(!workspaces.track_window(WindowHandle(1), Rect::from_size(10, 0, 100, 100)));
    workspaces.move_window_to_workspace(WindowHandle(1), WorkspaceId(2));
    workspaces.track_window(WindowHandle(2), Rect::from_size(0, 0, 100, 100));

    workspaces.retain_windows(&[WindowHandle(1)]);

    assert_eq!(
        workspaces.window_state(WindowHandle(1)),
        Some(WorkspaceWindowState {
            workspace: WorkspaceId(2),
            last_rect: Some(Rect::from_size(10, 0, 100, 100)),
            visible_on_all_workspaces: false,
        })
    );
    assert_eq!(workspaces.window_state(WindowHandle(2)), None);
}

#[test]
fn visible_on_all_workspace_windows_are_not_hidden_or_shown() {
    let mut workspaces = WorkspaceManager::new(2);
    workspaces.track_window(WindowHandle(1), Rect::from_size(0, 0, 100, 100));
    workspaces.set_visible_on_all_workspaces(WindowHandle(1), true);
    workspaces.track_window_on_workspace(
        WindowHandle(2),
        WorkspaceId(2),
        Rect::from_size(200, 0, 100, 100),
    );

    let plan = workspaces.switch_to(WorkspaceId(2));

    assert_eq!(plan.hide, Vec::<WindowHandle>::new());
    assert_eq!(
        plan.show,
        vec![WorkspaceVisibilityChange {
            window: WindowHandle(2),
            restore_rect: Some(Rect::from_size(200, 0, 100, 100)),
        }]
    );
    assert!(workspaces.is_window_on_active_workspace(WindowHandle(1)));
    assert_eq!(
        workspaces.visible_windows(),
        vec![WindowHandle(1), WindowHandle(2)]
    );
}

#[test]
fn monitor_selection_uses_window_center() {
    let monitor = MonitorInfo {
        id: MonitorId(1),
        is_primary: true,
        rect: Rect::from_size(0, 0, 100, 100),
        work_area: Rect::from_size(0, 0, 100, 90),
    };
    let mut inside = window();
    inside.handle = WindowHandle(1);
    inside.rect = Rect::from_size(70, 70, 40, 40);
    let mut outside = window();
    outside.handle = WindowHandle(2);
    outside.rect = Rect::from_size(100, 100, 40, 40);
    let windows = [inside, outside];

    let handles: Vec<_> = windows_in_monitor(&windows, &monitor)
        .into_iter()
        .map(|window| window.handle)
        .collect();

    assert_eq!(handles, vec![WindowHandle(1)]);
}

#[test]
fn window_rules_match_stable_metadata() {
    let rule = WindowRule {
        name: "pin editor".to_owned(),
        matcher: WindowRuleMatch {
            class_name: Some(TextMatcher::Exact("ApplicationFrameWindow".to_owned())),
            title: Some(TextMatcher::Contains("edit".to_owned())),
            executable_path: Some(TextMatcher::Suffix("notepad.exe".to_owned())),
            process_name: Some(TextMatcher::Exact("notepad.exe".to_owned())),
        },
        action: WindowRuleAction {
            target_workspace: Some(WorkspaceId(2)),
            ..WindowRuleAction::default()
        },
    };

    let decision = evaluate_window_rules(&window(), &[rule]);

    assert_eq!(decision.target_workspace, Some(WorkspaceId(2)));
    assert_eq!(decision.matched_rules, vec!["pin editor"]);
}

#[test]
fn later_matching_window_rules_override_earlier_actions() {
    let rules = [
        WindowRule {
            name: "float all app frames".to_owned(),
            matcher: WindowRuleMatch {
                class_name: Some(TextMatcher::Exact("ApplicationFrameWindow".to_owned())),
                ..WindowRuleMatch::default()
            },
            action: WindowRuleAction {
                float: Some(true),
                target_workspace: Some(WorkspaceId(2)),
                ..WindowRuleAction::default()
            },
        },
        WindowRule {
            name: "keep notepad tiled".to_owned(),
            matcher: WindowRuleMatch {
                process_name: Some(TextMatcher::Exact("notepad.exe".to_owned())),
                ..WindowRuleMatch::default()
            },
            action: WindowRuleAction {
                float: Some(false),
                ..WindowRuleAction::default()
            },
        },
    ];

    let decision = evaluate_window_rules(&window(), &rules);

    assert_eq!(decision.float, Some(false));
    assert_eq!(decision.target_workspace, Some(WorkspaceId(2)));
    assert_eq!(
        decision.matched_rules,
        vec!["float all app frames", "keep notepad tiled"]
    );
}
